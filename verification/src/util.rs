use vstd::prelude::*;

verus! {

/// A position on the playing-field grid, in whole blocks.
/// `x` grows to the right, `y` grows upward.
#[derive(Debug, Clone, Copy, PartialEq, Eq, Structural)]
pub struct BlockPos {
    pub x: i32,
    pub y: i32,
}

impl BlockPos {
    pub fn new(x: i32, y: i32) -> (r: Self)
        ensures
            r == (BlockPos { x, y }),
    {
        Self { x, y }
    }

    /// Component-wise vector addition.
    pub fn plus(self, rhs: Self) -> (r: Self)
        requires
            i32::MIN <= self.x + rhs.x <= i32::MAX,
            i32::MIN <= self.y + rhs.y <= i32::MAX,
        ensures
            r.x == self.x + rhs.x,
            r.y == self.y + rhs.y,
    {
        Self { x: self.x + rhs.x, y: self.y + rhs.y }
    }

    /// Component-wise vector subtraction.
    pub fn minus(self, rhs: Self) -> (r: Self)
        requires
            i32::MIN <= self.x - rhs.x <= i32::MAX,
            i32::MIN <= self.y - rhs.y <= i32::MAX,
        ensures
            r.x == self.x - rhs.x,
            r.y == self.y - rhs.y,
    {
        Self { x: self.x - rhs.x, y: self.y - rhs.y }
    }
}

/// Which screen the owning application shows next.
#[derive(Debug, Clone, Copy, PartialEq, Eq, Structural)]
pub enum Screen {
    Menu,
    SingleGame,
    DoubleGame,
    Exit,
}

} // verus!
