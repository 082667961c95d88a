use vstd::prelude::*;

verus! {

/// The hue of an occupied cell. Each piece shape has a fixed hue; garbage
/// rows are gray. The rendering layer maps each hue to its RGB value.
#[derive(Debug, Clone, Copy, PartialEq, Eq, Structural)]
pub enum BlockColor {
    Cyan,
    Blue,
    Orange,
    Yellow,
    Green,
    Purple,
    Red,
    Gray,
}

/// One cell of the playing field: empty air, or a block with a color.
/// Cells are value types with no identity beyond their position.
#[derive(Debug, Clone, Copy, PartialEq, Eq, Structural)]
pub enum Block {
    Air,
    Block { color: BlockColor },
}

impl Block {
    /// Whether the cell is occupied by a block.
    pub open spec fn is_filled(self) -> bool {
        !(self is Air)
    }
}

} // verus!
