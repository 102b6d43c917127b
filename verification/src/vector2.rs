use vstd::prelude::*;

verus! {

/// A two-component coordinate pair. On the board, `x` is the column
/// and `y` is the row, each counted from zero.
#[derive(Debug, Copy, Clone, PartialEq, Eq, Structural)]
pub struct Vector2<T> {
    pub x: T,
    pub y: T,
}

impl Vector2<usize> {
    /// Component-wise sum of two coordinate pairs.
    pub fn add(self, other: Self) -> (r: Self)
        requires
            self.x + other.x <= usize::MAX,
            self.y + other.y <= usize::MAX,
        ensures
            r.x == self.x + other.x,
            r.y == self.y + other.y,
    {
        Vector2 { x: self.x + other.x, y: self.y + other.y }
    }
}

} // verus!
