use vstd::prelude::*;

use crate::vector::Vector2D;

verus! {

/// A positioned, pre-rendered multi-line text block.
///
/// `position` is local to the panel the sprite is drawn on. The rows are
/// already laid out, top first; the renderer never reflows or wraps them.
pub struct Sprite {
    pub position: Vector2D<u32>,
    pub lines: Vec<String>,
}

impl Sprite {
    /// The rows, top first, each as its sequence of characters.
    pub open spec fn rows(self) -> Seq<Seq<char>> {
        self.lines.deep_view()
    }

    pub fn new(position: Vector2D<u32>, lines: Vec<String>) -> (s: Sprite)
        ensures
            s.position == position,
            s.rows() == lines.deep_view(),
    {
        Sprite { position, lines }
    }

    /// The pre-rendered rows, top first.
    pub fn render_data(&self) -> (r: &Vec<String>)
        ensures
            r.deep_view() == self.rows(),
    {
        &self.lines
    }
}

} // verus!
