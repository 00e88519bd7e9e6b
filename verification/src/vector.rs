use vstd::prelude::*;

verus! {

/// A two-component value, used both as a position (origin at a panel's or the
/// world's top-left corner) and as a size (width and height).
///
/// Equality and copy semantics are by value. Addition is componentwise and
/// exact: overflow is a caller error, ruled out by precondition rather than
/// wrapped or saturated.
#[derive(Clone, Copy, Debug, PartialEq, Eq, Structural)]
pub struct Vector2D<T> {
    pub x: T,
    pub y: T,
}

impl<T> Vector2D<T> {
    pub fn new(x: T, y: T) -> (v: Self)
        ensures
            v == (Vector2D { x, y }),
    {
        Vector2D { x, y }
    }
}

impl Vector2D<u32> {
    /// The origin / empty size for screen coordinates.
    pub fn zero() -> (v: Self)
        ensures
            v == (Vector2D { x: 0u32, y: 0u32 }),
    {
        Vector2D { x: 0, y: 0 }
    }

    /// Componentwise addition; both component sums must fit in `u32`.
    pub fn add(self, other: Self) -> (r: Self)
        requires
            self.x + other.x <= u32::MAX,
            self.y + other.y <= u32::MAX,
        ensures
            r.x == self.x + other.x,
            r.y == self.y + other.y,
    {
        Vector2D { x: self.x + other.x, y: self.y + other.y }
    }

    /// Componentwise addition in place; both component sums must fit in `u32`.
    pub fn add_assign(&mut self, other: Self)
        requires
            old(self).x + other.x <= u32::MAX,
            old(self).y + other.y <= u32::MAX,
        ensures
            final(self).x == old(self).x + other.x,
            final(self).y == old(self).y + other.y,
    {
        self.x = self.x + other.x;
        self.y = self.y + other.y;
    }
}

impl Vector2D<i32> {
    /// The origin for world coordinates.
    pub fn zero() -> (v: Self)
        ensures
            v == (Vector2D { x: 0i32, y: 0i32 }),
    {
        Vector2D { x: 0, y: 0 }
    }

    /// Componentwise addition; both component sums must fit in `i32`.
    pub fn add(self, other: Self) -> (r: Self)
        requires
            i32::MIN <= self.x + other.x <= i32::MAX,
            i32::MIN <= self.y + other.y <= i32::MAX,
        ensures
            r.x == self.x + other.x,
            r.y == self.y + other.y,
    {
        Vector2D { x: self.x + other.x, y: self.y + other.y }
    }

    /// Componentwise addition in place; both component sums must fit in `i32`.
    pub fn add_assign(&mut self, other: Self)
        requires
            i32::MIN <= old(self).x + other.x <= i32::MAX,
            i32::MIN <= old(self).y + other.y <= i32::MAX,
        ensures
            final(self).x == old(self).x + other.x,
            final(self).y == old(self).y + other.y,
    {
        self.x = self.x + other.x;
        self.y = self.y + other.y;
    }
}

} // verus!
