use vstd::prelude::*;

use crate::colour::Colour;
use crate::colours;
use crate::sprite::Sprite;
use crate::terminal::Command;
use crate::terminal::lemma_render_push;
use crate::terminal::render_cmds;
use crate::text::push_dec_u32;
use crate::text::spaces;
use crate::text::spaces_seq;
use crate::vector::Vector2D;

verus! {

// ---------------------------------------------------------------------------
// Panel geometry
// ---------------------------------------------------------------------------
/// A fixed rectangular sub-region of the terminal with its own local origin.
///
/// `size` is the content area, in cells. Around it the panel reserves a
/// 2-column / 1-row margin on all sides for its border, so its total
/// footprint is `size + (4, 2)` cells starting at `start_point`. Every local
/// coordinate is shifted by `(2, 1)` (and by `start_point`) on its way to the
/// physical cursor; that translation happens in `set_cursor` and nowhere
/// else. The geometry is fixed for the panel's lifetime.
#[derive(Clone, Copy, Debug, PartialEq, Eq, Structural)]
pub struct Panel {
    pub start_point: Vector2D<u32>,
    pub size: Vector2D<u32>,
}

/// The commands of a solid horizontal run of `length` blank cells whose
/// leftmost cell is the absolute 0-indexed cell `(x, y)`: set the background,
/// move once, write the run, restore the clear background.
pub open spec fn line_h_cmds(colour: Colour, x: int, y: int, length: nat) -> Seq<Command> {
    seq![
        Command::SetBg(colour),
        Command::MoveTo { col: x + 1, row: y + 1 },
        Command::Write(spaces_seq(length)),
        Command::SetBg(colours::spec_clear_colour()),
    ]
}

/// The per-row commands of a vertical run: for each of the `height` rows in
/// turn, one cursor move and one single-cell write.
pub open spec fn col_cmds(x: int, y: int, height: nat) -> Seq<Command>
    decreases height,
{
    if height == 0 {
        Seq::empty()
    } else {
        col_cmds(x, y, (height - 1) as nat) + seq![
            Command::MoveTo { col: x + 1, row: y + height },
            Command::Write(seq![' ']),
        ]
    }
}

/// The commands of a solid vertical run of `height` blank cells whose top
/// cell is the absolute 0-indexed cell `(x, y)`.
pub open spec fn line_v_cmds(colour: Colour, x: int, y: int, height: nat) -> Seq<Command> {
    seq![Command::SetBg(colour)] + col_cmds(x, y, height) + seq![
        Command::SetBg(colours::spec_clear_colour()),
    ]
}

impl Panel {
    /// The panel's whole footprint, border margin included, stays inside the
    /// `u32` coordinate range.
    pub open spec fn fits(self) -> bool {
        &&& self.start_point.x + self.size.x + 4 <= u32::MAX
        &&& self.start_point.y + self.size.y + 2 <= u32::MAX
    }

    /// The absolute 0-indexed column of local `position`: shifted by the
    /// panel's start point plus the 2-column border margin.
    pub open spec fn abs_x(self, position: Vector2D<u32>) -> int {
        self.start_point.x + position.x + 2
    }

    /// The absolute 0-indexed row of local `position`: shifted by the
    /// panel's start point plus the 1-row border margin.
    pub open spec fn abs_y(self, position: Vector2D<u32>) -> int {
        self.start_point.y + position.y + 1
    }

    /// The cursor move that `set_cursor` emits for local `position`.
    pub open spec fn cursor_cmd(self, position: Vector2D<u32>) -> Command {
        Command::MoveTo { col: self.abs_x(position) + 1, row: self.abs_y(position) + 1 }
    }

    /// A vertical position at or beyond the content height is a programming
    /// error: `draw_string` treats it as an unrecoverable fault.
    pub open spec fn vertical_fault(self, position: Vector2D<u32>) -> bool {
        position.y >= self.size.y
    }

    /// The commands `draw_string` emits: one cursor move, one write.
    pub open spec fn string_cmds(self, text: Seq<char>, position: Vector2D<u32>) -> Seq<Command> {
        seq![self.cursor_cmd(position), Command::Write(text)]
    }

    /// The commands of the first `n` blank rows that `clear` emits.
    pub open spec fn rows_cmds(self, n: nat) -> Seq<Command>
        decreases n,
    {
        if n == 0 {
            Seq::empty()
        } else {
            self.rows_cmds((n - 1) as nat) + self.string_cmds(
                spaces_seq(self.size.x as nat),
                Vector2D { x: 0u32, y: (n - 1) as u32 },
            )
        }
    }

    /// The commands `clear` emits: set the background, then blank every
    /// content row from top to bottom.
    pub open spec fn clear_cmds(self, colour: Colour) -> Seq<Command> {
        seq![Command::SetBg(colour)] + self.rows_cmds(self.size.y as nat)
    }

    /// The commands `border` emits: top edge, the two left edges, bottom
    /// edge, then the two right edges, in the border colour.
    pub open spec fn border_cmds(self) -> Seq<Command> {
        let x = self.start_point.x as int;
        let y = self.start_point.y as int;
        let w = self.size.x as int;
        let h = self.size.y as int;
        let b = colours::spec_border_colour();
        line_h_cmds(b, x, y, (w + 2) as nat) + line_v_cmds(b, x, y, (h + 2) as nat) + line_v_cmds(
            b,
            x + 1,
            y,
            (h + 2) as nat,
        ) + line_h_cmds(b, x, y + h + 1, (w + 2) as nat) + line_v_cmds(
            b,
            x + w + 2,
            y,
            (h + 2) as nat,
        ) + line_v_cmds(b, x + w + 3, y, (h + 2) as nat)
    }

    /// The commands of the first `n` rows that `draw_sprite` emits.
    pub open spec fn sprite_rows_cmds(
        self,
        position: Vector2D<u32>,
        lines: Seq<Seq<char>>,
        n: nat,
    ) -> Seq<Command>
        decreases n,
    {
        if n == 0 {
            Seq::empty()
        } else {
            self.sprite_rows_cmds(position, lines, (n - 1) as nat) + self.string_cmds(
                lines[n - 1],
                Vector2D { x: position.x, y: (position.y + n - 1) as u32 },
            )
        }
    }

    /// The commands `draw_sprite` emits: each row exactly as `draw_string`
    /// would draw it, top row first.
    pub open spec fn sprite_cmds(self, position: Vector2D<u32>, lines: Seq<Seq<char>>) -> Seq<
        Command,
    > {
        self.sprite_rows_cmds(position, lines, lines.len())
    }

    pub fn new(start_point: Vector2D<u32>, size: Vector2D<u32>) -> (p: Panel)
        ensures
            p == (Panel { start_point, size }),
    {
        Panel { start_point, size }
    }

    /// Pure coordinate translation: the absolute cursor position is
    /// `start_point + position + (2, 1)`. This is the single place where the
    /// border margin offset is applied; every other drawing primitive routes
    /// through here.
    pub fn set_cursor(&self, ren: &mut Renderer, position: Vector2D<u32>)
        requires
            old(ren).inv(),
            self.start_point.x + position.x + 3 <= u32::MAX,
            self.start_point.y + position.y + 2 <= u32::MAX,
        ensures
            final(ren).inv(),
            final(ren).history() == old(ren).history().push(self.cursor_cmd(position)),
            final(ren).same_layout(*old(ren)),
    {
        ren.set_cursor_location(self.start_point.add(position).add(Vector2D::new(2, 1)));
    }

    /// Writes a single row of text starting at the local `position`.
    /// A vertical position at or beyond the content height is an
    /// unrecoverable fault, ruled out by precondition; horizontal overflow
    /// past the right edge is deliberately not checked or clipped.
    pub fn draw_string(&self, ren: &mut Renderer, string: &str, start_position: Vector2D<u32>)
        requires
            old(ren).inv(),
            !self.vertical_fault(start_position),
            self.start_point.x + start_position.x + 3 <= u32::MAX,
            self.start_point.y + start_position.y + 2 <= u32::MAX,
        ensures
            final(ren).inv(),
            final(ren).history() == old(ren).history() + self.string_cmds(
                string@,
                start_position,
            ),
            final(ren).same_layout(*old(ren)),
    {
        self.set_cursor(ren, start_position);
        ren.write_text(string);
        proof {
            assert(ren.history() =~= old(ren).history() + self.string_cmds(
                string@,
                start_position,
            ));
        }
    }

    /// Draws a solid horizontal run of blank cells of the given colour,
    /// starting at the **absolute** position `begin_position` (no margin
    /// translation), and restores the clear background afterwards.
    pub fn draw_line_h(
        &self,
        ren: &mut Renderer,
        colour: &Colour,
        begin_position: Vector2D<u32>,
        length: u32,
    )
        requires
            old(ren).inv(),
            begin_position.x < u32::MAX,
            begin_position.y < u32::MAX,
        ensures
            final(ren).inv(),
            final(ren).history() == old(ren).history() + line_h_cmds(
                *colour,
                begin_position.x as int,
                begin_position.y as int,
                length as nat,
            ),
            final(ren).same_layout(*old(ren)),
    {
        ren.set_bg_colour(colour);
        ren.set_cursor_location(begin_position);
        let row = spaces(length);
        ren.write_text(row.as_str());
        let cc = colours::clear_colour();
        ren.set_bg_colour(&cc);
        proof {
            assert(ren.history() =~= old(ren).history() + line_h_cmds(
                *colour,
                begin_position.x as int,
                begin_position.y as int,
                length as nat,
            ));
        }
    }

    /// Draws a solid vertical run of blank cells of the given colour,
    /// starting at the **absolute** position `begin_position` (no margin
    /// translation), and restores the clear background afterwards.
    pub fn draw_line_v(
        &self,
        ren: &mut Renderer,
        colour: &Colour,
        begin_position: Vector2D<u32>,
        height: u32,
    )
        requires
            old(ren).inv(),
            begin_position.x < u32::MAX,
            begin_position.y + height <= u32::MAX,
        ensures
            final(ren).inv(),
            final(ren).history() == old(ren).history() + line_v_cmds(
                *colour,
                begin_position.x as int,
                begin_position.y as int,
                height as nat,
            ),
            final(ren).same_layout(*old(ren)),
    {
        ren.set_bg_colour(colour);
        let mut y: u32 = 0;
        while y < height
            invariant
                old(ren).inv(),
                ren.inv(),
                ren.same_layout(*old(ren)),
                y <= height,
                begin_position.x < u32::MAX,
                begin_position.y + height <= u32::MAX,
                ren.history() == old(ren).history() + seq![Command::SetBg(*colour)] + col_cmds(
                    begin_position.x as int,
                    begin_position.y as int,
                    y as nat,
                ),
            decreases height - y,
        {
            ren.set_cursor_location(begin_position.add(Vector2D::new(0, y)));
            proof {
                reveal_strlit(" ");
            }
            ren.write_text(" ");
            y = y + 1;
            proof {
                assert(" "@ =~= seq![' ']);
                assert(ren.history() =~= old(ren).history() + seq![Command::SetBg(*colour)]
                    + col_cmds(begin_position.x as int, begin_position.y as int, y as nat));
            }
        }
        let cc = colours::clear_colour();
        ren.set_bg_colour(&cc);
        proof {
            assert(ren.history() =~= old(ren).history() + line_v_cmds(
                *colour,
                begin_position.x as int,
                begin_position.y as int,
                height as nat,
            ));
        }
    }

    /// Fills every row of the content area with blank cells of the given
    /// background colour, row by row from the top. The shared colour state
    /// is left at the colour of the last write; callers that need a clean
    /// state must reset it explicitly.
    pub fn clear(&self, ren: &mut Renderer, colour: &Colour)
        requires
            old(ren).inv(),
            self.fits(),
        ensures
            final(ren).inv(),
            final(ren).history() == old(ren).history() + self.clear_cmds(*colour),
            final(ren).same_layout(*old(ren)),
    {
        ren.set_bg_colour(colour);
        let row_str = spaces(self.size.x);
        let mut y: u32 = 0;
        while y < self.size.y
            invariant
                old(ren).inv(),
                ren.inv(),
                ren.same_layout(*old(ren)),
                y <= self.size.y,
                self.fits(),
                row_str@ == spaces_seq(self.size.x as nat),
                ren.history() == old(ren).history() + seq![Command::SetBg(*colour)]
                    + self.rows_cmds(y as nat),
            decreases self.size.y - y,
        {
            self.draw_string(ren, row_str.as_str(), Vector2D::new(0, y));
            y = y + 1;
            proof {
                assert(ren.history() =~= old(ren).history() + seq![Command::SetBg(*colour)]
                    + self.rows_cmds(y as nat));
            }
        }
        proof {
            assert(ren.history() =~= old(ren).history() + self.clear_cmds(*colour));
        }
    }

    /// Draws a one-cell-thick frame strictly around the content area, in the
    /// border colour, occupying the reserved margin: a top edge of length
    /// `width + 2`, two left edges of height `height + 2`, a mirrored bottom
    /// edge, and two right edges. The double-thick left and right edges are
    /// a deliberate asymmetric style.
    pub fn border(&self, ren: &mut Renderer)
        requires
            old(ren).inv(),
            self.fits(),
        ensures
            final(ren).inv(),
            final(ren).history() == old(ren).history() + self.border_cmds(),
            final(ren).same_layout(*old(ren)),
    {
        let bg_col = colours::border_colour();
        let w = self.size.x;
        let h = self.size.y;
        // top
        self.draw_line_h(ren, &bg_col, self.start_point, w + 2);
        // left
        self.draw_line_v(ren, &bg_col, self.start_point, h + 2);
        self.draw_line_v(ren, &bg_col, self.start_point.add(Vector2D::new(1, 0)), h + 2);
        // bottom
        self.draw_line_h(ren, &bg_col, self.start_point.add(Vector2D::new(0, h + 1)), w + 2);
        // right
        self.draw_line_v(ren, &bg_col, self.start_point.add(Vector2D::new(w + 2, 0)), h + 2);
        self.draw_line_v(ren, &bg_col, self.start_point.add(Vector2D::new(w + 3, 0)), h + 2);
        proof {
            assert(ren.history() =~= old(ren).history() + self.border_cmds());
        }
    }

    /// Blits each row of the sprite as a `draw_string` call, top row first,
    /// starting at the sprite's own (panel-local) position and advancing the
    /// row position by one for each line. A sprite with no rows draws
    /// nothing.
    pub fn draw_sprite(&self, ren: &mut Renderer, sprite: &Sprite)
        requires
            old(ren).inv(),
            sprite.rows().len() > 0 ==> self.start_point.x + sprite.position.x + 3 <= u32::MAX,
            sprite.rows().len() > 0 ==> self.start_point.y + self.size.y + 2 <= u32::MAX,
            sprite.rows().len() > 0 ==> sprite.position.y + sprite.rows().len() <= self.size.y,
        ensures
            final(ren).inv(),
            final(ren).history() == old(ren).history() + self.sprite_cmds(
                sprite.position,
                sprite.rows(),
            ),
            final(ren).same_layout(*old(ren)),
    {
        let data = sprite.render_data();
        let ghost lines = sprite.rows();
        let mut i: usize = 0;
        while i < data.len()
            invariant
                old(ren).inv(),
                ren.inv(),
                ren.same_layout(*old(ren)),
                i <= data.len(),
                data.deep_view() == lines,
                lines == sprite.rows(),
                lines.len() > 0 ==> self.start_point.x + sprite.position.x + 3 <= u32::MAX,
                lines.len() > 0 ==> self.start_point.y + self.size.y + 2 <= u32::MAX,
                lines.len() > 0 ==> sprite.position.y + lines.len() <= self.size.y,
                ren.history() == old(ren).history() + self.sprite_rows_cmds(
                    sprite.position,
                    lines,
                    i as nat,
                ),
            decreases data.len() - i,
        {
            let line: &String = &data[i];
            proof {
                assert(line@ == lines[i as int]);
            }
            self.draw_string(ren, line.as_str(), sprite.position.add(Vector2D::new(0, i as u32)));
            i = i + 1;
            proof {
                assert(ren.history() =~= old(ren).history() + self.sprite_rows_cmds(
                    sprite.position,
                    lines,
                    i as nat,
                ));
            }
        }
    }
}

// ---------------------------------------------------------------------------
// Renderer
// ---------------------------------------------------------------------------
/// The registry of panels built from the entries in order: a later entry for
/// the same name wins, as a later registration does.
pub open spec fn map_of(entries: Seq<(String, Panel)>) -> Map<Seq<char>, Panel>
    decreases entries.len(),
{
    if entries.len() == 0 {
        Map::empty()
    } else {
        map_of(entries.drop_last()).insert(entries.last().0@, entries.last().1)
    }
}

/// No two registry entries carry the same name.
pub open spec fn names_unique(entries: Seq<(String, Panel)>) -> bool {
    forall|i: int, j: int|
        0 <= i < j < entries.len() ==> (#[trigger] entries[i]).0@ != (#[trigger] entries[j]).0@
}

/// The owner of the terminal: the usable interior size of the main panel, a
/// named registry of panels, and the single point of contact for physical
/// cursor and colour mutation.
///
/// The physical stream is held as data: `out` is the exact byte stream
/// written so far, and `hist` is the history of drawing commands it renders.
/// Nothing here performs I/O; a caller drains `out` (see `take_output`) and
/// hands it to the terminal.
pub struct Renderer {
    pub size: Vector2D<u32>,
    pub panels: Vec<(String, Panel)>,
    pub out: String,
    pub hist: Ghost<Seq<Command>>,
}

/// The panel layout `Renderer::new` installs for its main content area.
pub open spec fn main_panel_spec(size: Vector2D<u32>) -> Panel {
    Panel { start_point: Vector2D { x: 0u32, y: 0u32 }, size }
}

/// The panel layout `Renderer::new` installs for the debug column: just to
/// the right of the main panel's footprint, 20 columns wide, same height.
pub open spec fn debug_panel_spec(size: Vector2D<u32>) -> Panel {
    Panel {
        start_point: Vector2D { x: (size.x + 2) as u32, y: 0u32 },
        size: Vector2D { x: 20u32, y: size.y },
    }
}

/// Both initial panels, margins included, fit the `u32` coordinate range.
pub open spec fn renderer_size_ok(size: Vector2D<u32>) -> bool {
    &&& size.x + 26 <= u32::MAX
    &&& size.y + 2 <= u32::MAX
}

/// The commands `Renderer::new` emits: clear and border the main panel, then
/// clear and border the debug panel.
pub open spec fn init_cmds(size: Vector2D<u32>) -> Seq<Command> {
    let cc = colours::spec_clear_colour();
    main_panel_spec(size).clear_cmds(cc) + main_panel_spec(size).border_cmds() + debug_panel_spec(
        size,
    ).clear_cmds(cc) + debug_panel_spec(size).border_cmds()
}

impl Renderer {
    /// Builds the renderer for a terminal whose main content area has the
    /// given interior size: creates a "main" panel at the origin and a
    /// "debug" panel immediately to its right, clears and borders both, and
    /// registers them under those two fixed names.
    pub fn new(size: Vector2D<u32>) -> (r: Renderer)
        requires
            renderer_size_ok(size),
        ensures
            r.inv(),
            r.size == size,
            names_unique(r.panels@),
            r.history() == init_cmds(size),
            r.panel_map() == Map::<Seq<char>, Panel>::empty().insert(
                "main"@,
                main_panel_spec(size),
            ).insert("debug"@, debug_panel_spec(size)),
    {
        let mut renderer = Renderer {
            size,
            panels: Vec::new(),
            out: String::new(),
            hist: Ghost(Seq::empty()),
        };

        let cc = colours::clear_colour();

        let main_panel = Panel::new(Vector2D::<u32>::zero(), size);
        main_panel.clear(&mut renderer, &cc);
        main_panel.border(&mut renderer);

        let debug_panel = Panel::new(Vector2D::new(size.x + 2, 0), Vector2D::new(20, size.y));
        debug_panel.clear(&mut renderer, &cc);
        debug_panel.border(&mut renderer);

        renderer.add_panel("main", main_panel);
        renderer.add_panel("debug", debug_panel);

        proof {
            assert(renderer.history() =~= init_cmds(size));
            assert(renderer.panel_map() =~= Map::<Seq<char>, Panel>::empty().insert(
                "main"@,
                main_panel_spec(size),
            ).insert("debug"@, debug_panel_spec(size)));
        }
        renderer
    }

    /// The registry, as a map from panel name to panel.
    pub open spec fn panel_map(self) -> Map<Seq<char>, Panel> {
        map_of(self.panels@)
    }

    /// The history of drawing commands emitted so far.
    pub open spec fn history(self) -> Seq<Command> {
        self.hist@
    }

    /// The output buffer holds exactly the bytes the history renders to.
    pub open spec fn inv(self) -> bool {
        self.out@ == render_cmds(self.hist@)
    }

    /// The terminal size and the registry are untouched.
    pub open spec fn same_layout(self, other: Renderer) -> bool {
        &&& self.size == other.size
        &&& self.panels == other.panels
    }

    /// Set the foreground colour for text printed to the terminal. Global,
    /// immediate, and persistent until the next change.
    pub fn set_text_colour(&mut self, colour: &Colour)
        requires
            old(self).inv(),
        ensures
            final(self).inv(),
            final(self).history() == old(self).history().push(Command::SetFg(*colour)),
            final(self).same_layout(*old(self)),
    {
        let frag = colour.ansi_text_string();
        self.out.append(frag.as_str());
        proof {
            lemma_render_push(self.hist@, Command::SetFg(*colour));
        }
        self.hist = Ghost(self.hist@.push(Command::SetFg(*colour)));
    }

    /// Set the background colour for text printed to the terminal. Global,
    /// immediate, and persistent until the next change.
    pub fn set_bg_colour(&mut self, colour: &Colour)
        requires
            old(self).inv(),
        ensures
            final(self).inv(),
            final(self).history() == old(self).history().push(Command::SetBg(*colour)),
            final(self).same_layout(*old(self)),
    {
        let frag = colour.ansi_bg_string();
        self.out.append(frag.as_str());
        proof {
            lemma_render_push(self.hist@, Command::SetBg(*colour));
        }
        self.hist = Ghost(self.hist@.push(Command::SetBg(*colour)));
    }

    /// Move the physical cursor to the absolute 0-indexed position `pos`.
    /// The escape sequence is 1-indexed; the single `+1` on each axis
    /// happens here and only here.
    pub fn set_cursor_location(&mut self, pos: Vector2D<u32>)
        requires
            old(self).inv(),
            pos.x < u32::MAX,
            pos.y < u32::MAX,
        ensures
            final(self).inv(),
            final(self).history() == old(self).history().push(
                Command::MoveTo { col: pos.x + 1, row: pos.y + 1 },
            ),
            final(self).same_layout(*old(self)),
    {
        self.out.append("\u{1b}[");
        push_dec_u32(&mut self.out, pos.y + 1);
        self.out.append(";");
        push_dec_u32(&mut self.out, pos.x + 1);
        self.out.append("H");
        proof {
            reveal_strlit("\u{1b}[");
            reveal_strlit(";");
            reveal_strlit("H");
            let c = Command::MoveTo { col: pos.x + 1, row: pos.y + 1 };
            lemma_render_push(old(self).hist@, c);
            assert(self.out@ =~= render_cmds(old(self).hist@.push(c)));
        }
        self.hist = Ghost(self.hist@.push(Command::MoveTo { col: pos.x + 1, row: pos.y + 1 }));
    }

    /// Hand a run of characters to the stream at the current cursor
    /// position.
    pub(crate) fn write_text(&mut self, s: &str)
        requires
            old(self).inv(),
        ensures
            final(self).inv(),
            final(self).history() == old(self).history().push(Command::Write(s@)),
            final(self).same_layout(*old(self)),
    {
        self.out.append(s);
        proof {
            lemma_render_push(self.hist@, Command::Write(s@));
        }
        self.hist = Ghost(self.hist@.push(Command::Write(s@)));
    }

    /// Registers or replaces a panel under a name: a known name has its
    /// panel replaced in place, so names stay unique. No check that panels
    /// do not overlap: overlap is the caller's responsibility.
    pub fn add_panel(&mut self, name: &str, panel: Panel)
        requires
            names_unique(old(self).panels@),
        ensures
            names_unique(final(self).panels@),
            final(self).panel_map() == old(self).panel_map().insert(name@, panel),
            final(self).history() == old(self).history(),
            final(self).out == old(self).out,
            final(self).size == old(self).size,
            old(self).inv() ==> final(self).inv(),
    {
        let owned: String = name.to_owned();
        let n = self.panels.len();
        let mut i: usize = 0;
        while i < n
            invariant
                *self == *old(self),
                n == self.panels@.len(),
                i <= n,
                owned@ == name@,
                names_unique(self.panels@),
                forall|j: int| 0 <= j < i ==> (#[trigger] self.panels@[j]).0@ != name@,
            decreases n - i,
        {
            if self.panels[i].0 == owned {
                self.panels.set(i, (owned, panel));
                proof {
                    lemma_map_of_update(old(self).panels@, i as int, self.panels@[i as int]);
                    assert forall|a: int, b: int|
                        0 <= a < b < self.panels@.len() implies (#[trigger] self.panels@[a]).0@ != (
                    #[trigger] self.panels@[b]).0@ by {
                        assert(old(self).panels@[a].0@ != old(self).panels@[b].0@);
                        assert(self.panels@[a].0@ == old(self).panels@[a].0@);
                        assert(self.panels@[b].0@ == old(self).panels@[b].0@);
                    }
                }
                return ;
            }
            i = i + 1;
        }
        self.panels.push((owned, panel));
        proof {
            assert(self.panels@.drop_last() =~= old(self).panels@);
            assert forall|a: int, b: int|
                0 <= a < b < self.panels@.len() implies (#[trigger] self.panels@[a]).0@ != (
            #[trigger] self.panels@[b]).0@ by {
                if b < self.panels@.len() - 1 {
                    assert(old(self).panels@[a].0@ != old(self).panels@[b].0@);
                } else {
                    assert(old(self).panels@[a].0@ != name@);
                }
            }
        }
    }

    /// Lookup by name. Requesting a name that is not registered is a
    /// programming error, ruled out by precondition.
    pub fn panel(&self, name: &str) -> (p: &Panel)
        requires
            self.panel_map().contains_key(name@),
        ensures
            *p == self.panel_map()[name@],
    {
        let owned: String = name.to_owned();
        let mut i: usize = self.panels.len();
        while i > 0
            invariant
                i <= self.panels@.len(),
                owned@ == name@,
                forall|j: int| i <= j < self.panels@.len() ==> self.panels@[j].0@ != name@,
            decreases i,
    {
            i = i - 1;
            if self.panels[i].0 == owned {
                proof {
                    lemma_map_of_get(self.panels@, i as int, name@);
                }
                return &self.panels[i].1;
            }
        }
        proof {
            lemma_map_of_contains(self.panels@, name@);
        }
        unreached()
    }

    /// The exact byte stream written so far.
    pub fn output(&self) -> (r: &String)
        requires
            self.inv(),
        ensures
            r@ == render_cmds(self.history()),
    {
        &self.out
    }

    /// Drains the byte stream written so far, leaving an empty history, so
    /// that a caller can hand it to the terminal.
    pub fn take_output(&mut self) -> (r: String)
        requires
            old(self).inv(),
        ensures
            r@ == render_cmds(old(self).history()),
            final(self).inv(),
            final(self).history() == Seq::<Command>::empty(),
            final(self).same_layout(*old(self)),
    {
        let r = self.out.clone();
        self.out = String::new();
        self.hist = Ghost(Seq::empty());
        r
    }
}

/// If entry `i` carries `name` and no later entry does, the registry maps
/// `name` to entry `i`'s panel.
proof fn lemma_map_of_get(entries: Seq<(String, Panel)>, i: int, name: Seq<char>)
    requires
        0 <= i < entries.len(),
        entries[i].0@ == name,
        forall|j: int| i < j < entries.len() ==> entries[j].0@ != name,
    ensures
        map_of(entries).contains_key(name),
        map_of(entries)[name] == entries[i].1,
    decreases entries.len(),
{
    if i == entries.len() - 1 {
    } else {
        assert(entries.drop_last()[i] == entries[i]);
        lemma_map_of_get(entries.drop_last(), i, name);
    }
}

/// Replacing the panel of entry `i` in place, under the same name, is an
/// insert on the registry, provided names are unique.
proof fn lemma_map_of_update(entries: Seq<(String, Panel)>, i: int, e: (String, Panel))
    requires
        0 <= i < entries.len(),
        names_unique(entries),
        e.0@ == entries[i].0@,
    ensures
        map_of(entries.update(i, e)) == map_of(entries).insert(e.0@, e.1),
    decreases entries.len(),
{
    let u = entries.update(i, e);
    if i == entries.len() - 1 {
        assert(u.drop_last() =~= entries.drop_last());
        assert(u.last() == e);
        assert(map_of(u) =~= map_of(entries).insert(e.0@, e.1));
    } else {
        assert(u.drop_last() =~= entries.drop_last().update(i, e));
        assert(u.last() == entries.last());
        assert forall|a: int, b: int|
            0 <= a < b < entries.drop_last().len() implies (#[trigger] entries.drop_last()[a]).0@
            != (#[trigger] entries.drop_last()[b]).0@ by {
            assert(entries[a].0@ != entries[b].0@);
        }
        lemma_map_of_update(entries.drop_last(), i, e);
        assert(entries[i].0@ != entries[entries.len() - 1].0@);
        assert(map_of(u) =~= map_of(entries).insert(e.0@, e.1));
    }
}

/// The registry has a name exactly when some entry carries it.
proof fn lemma_map_of_contains(entries: Seq<(String, Panel)>, name: Seq<char>)
    ensures
        map_of(entries).contains_key(name) <==> exists|i: int|
            0 <= i < entries.len() && entries[i].0@ == name,
    decreases entries.len(),
{
    if entries.len() > 0 {
        lemma_map_of_contains(entries.drop_last(), name);
        if entries.last().0@ == name {
            assert(entries[entries.len() - 1].0@ == name);
        } else if map_of(entries).contains_key(name) {
            let i = choose|i: int| 0 <= i < entries.drop_last().len() && entries.drop_last()[i].0@
                == name;
            assert(entries[i].0@ == name);
        } else {
            assert forall|i: int| 0 <= i < entries.len() implies entries[i].0@ != name by {
                if i < entries.len() - 1 {
                    assert(entries.drop_last()[i].0@ != name);
                }
            }
        }
    }
}

} // verus!
