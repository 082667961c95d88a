use vstd::prelude::*;

use crate::block::{Block, BlockColor};
use crate::field::PlayingField;
use crate::util::BlockPos;

verus! {

/// The seven standard piece shapes.
#[derive(Debug, Clone, Copy, PartialEq, Eq, Hash, Structural)]
pub enum Shape {
    I,
    J,
    L,
    O,
    S,
    T,
    Z,
}

/// The fixed color of each shape; garbage rows use `Gray` separately.
pub open spec fn color_of(shape: Shape) -> BlockColor {
    match shape {
        Shape::I => BlockColor::Cyan,
        Shape::J => BlockColor::Blue,
        Shape::L => BlockColor::Orange,
        Shape::O => BlockColor::Yellow,
        Shape::S => BlockColor::Green,
        Shape::T => BlockColor::Purple,
        Shape::Z => BlockColor::Red,
    }
}

/// Occupancy of the 4x4 mask of `shape` at rotation state `rot`, at mask
/// cell `(x, y)`. `x` grows right, `y` grows upward, both from the bottom
/// left of the mask's bounding box. Rotation states advance clockwise from
/// the spawn state; `rot` outside 0..4 occupies nothing.
///
/// All 28 masks are fixed data, not derived geometrically.
pub open spec fn occ(shape: Shape, rot: int, x: int, y: int) -> bool {
    match shape {
        Shape::I => {
            if rot == 0 {
                y == 2 && 0 <= x <= 3
            } else if rot == 1 {
                x == 2 && 0 <= y <= 3
            } else if rot == 2 {
                y == 1 && 0 <= x <= 3
            } else if rot == 3 {
                x == 1 && 0 <= y <= 3
            } else {
                false
            }
        },
        Shape::J => {
            if rot == 0 {
                (x == 0 && y == 3) || (y == 2 && 0 <= x <= 2)
            } else if rot == 1 {
                (y == 3 && 1 <= x <= 2) || (x == 1 && 1 <= y <= 2)
            } else if rot == 2 {
                (y == 2 && 0 <= x <= 2) || (x == 2 && y == 1)
            } else if rot == 3 {
                (x == 1 && 1 <= y <= 3) || (x == 0 && y == 1)
            } else {
                false
            }
        },
        Shape::L => {
            if rot == 0 {
                (x == 2 && y == 3) || (y == 2 && 0 <= x <= 2)
            } else if rot == 1 {
                (x == 1 && 1 <= y <= 3) || (x == 2 && y == 1)
            } else if rot == 2 {
                (y == 2 && 0 <= x <= 2) || (x == 0 && y == 1)
            } else if rot == 3 {
                (y == 3 && 0 <= x <= 1) || (x == 1 && 1 <= y <= 2)
            } else {
                false
            }
        },
        Shape::O => {
            if 0 <= rot < 4 {
                1 <= x <= 2 && 2 <= y <= 3
            } else {
                false
            }
        },
        Shape::S => {
            if rot == 0 {
                (y == 3 && 1 <= x <= 2) || (y == 2 && 0 <= x <= 1)
            } else if rot == 1 {
                (x == 1 && 2 <= y <= 3) || (x == 2 && 1 <= y <= 2)
            } else if rot == 2 {
                (y == 2 && 1 <= x <= 2) || (y == 1 && 0 <= x <= 1)
            } else if rot == 3 {
                (x == 0 && 2 <= y <= 3) || (x == 1 && 1 <= y <= 2)
            } else {
                false
            }
        },
        Shape::T => {
            if rot == 0 {
                (x == 1 && y == 3) || (y == 2 && 0 <= x <= 2)
            } else if rot == 1 {
                (x == 1 && 1 <= y <= 3) || (x == 2 && y == 2)
            } else if rot == 2 {
                (y == 2 && 0 <= x <= 2) || (x == 1 && y == 1)
            } else if rot == 3 {
                (x == 1 && 1 <= y <= 3) || (x == 0 && y == 2)
            } else {
                false
            }
        },
        Shape::Z => {
            if rot == 0 {
                (y == 3 && 0 <= x <= 1) || (y == 2 && 1 <= x <= 2)
            } else if rot == 1 {
                (x == 2 && 2 <= y <= 3) || (x == 1 && 1 <= y <= 2)
            } else if rot == 2 {
                (y == 2 && 0 <= x <= 1) || (y == 1 && 1 <= x <= 2)
            } else if rot == 3 {
                (x == 1 && 2 <= y <= 3) || (x == 0 && 1 <= y <= 2)
            } else {
                false
            }
        },
    }
}

/// Every occupied mask cell lies inside the 4x4 bounding box.
pub proof fn lemma_occ_in_range(shape: Shape, rot: int, x: int, y: int)
    requires
        occ(shape, rot, x, y),
    ensures
        0 <= x < 4,
        0 <= y < 4,
{
}

/// 1 if the mask cell is occupied, else 0.
pub open spec fn occ_count(shape: Shape, rot: int, x: int, y: int) -> int {
    if occ(shape, rot, x, y) {
        1int
    } else {
        0int
    }
}

/// Number of occupied cells in one mask row.
pub open spec fn mask_row_count(shape: Shape, rot: int, y: int) -> int {
    occ_count(shape, rot, 0, y) + occ_count(shape, rot, 1, y) + occ_count(shape, rot, 2, y)
        + occ_count(shape, rot, 3, y)
}

/// Number of occupied cells in the whole 4x4 mask.
pub open spec fn mask_count(shape: Shape, rot: int) -> int {
    mask_row_count(shape, rot, 0) + mask_row_count(shape, rot, 1) + mask_row_count(shape, rot, 2)
        + mask_row_count(shape, rot, 3)
}

/// Every (shape, rotation state) occupancy mask has exactly 4 occupied
/// cells.
pub proof fn lemma_mask_block_count(shape: Shape, rot: int)
    requires
        0 <= rot < 4,
    ensures
        mask_count(shape, rot) == 4,
{
    assert(rot == 0 || rot == 1 || rot == 2 || rot == 3);
    match shape {
        Shape::I => {
            assert(mask_count(Shape::I, 0) == 4);
            assert(mask_count(Shape::I, 1) == 4);
            assert(mask_count(Shape::I, 2) == 4);
            assert(mask_count(Shape::I, 3) == 4);
        },
        Shape::J => {
            assert(mask_count(Shape::J, 0) == 4);
            assert(mask_count(Shape::J, 1) == 4);
            assert(mask_count(Shape::J, 2) == 4);
            assert(mask_count(Shape::J, 3) == 4);
        },
        Shape::L => {
            assert(mask_count(Shape::L, 0) == 4);
            assert(mask_count(Shape::L, 1) == 4);
            assert(mask_count(Shape::L, 2) == 4);
            assert(mask_count(Shape::L, 3) == 4);
        },
        Shape::O => {
            assert(mask_count(Shape::O, 0) == 4);
            assert(mask_count(Shape::O, 1) == 4);
            assert(mask_count(Shape::O, 2) == 4);
            assert(mask_count(Shape::O, 3) == 4);
        },
        Shape::S => {
            assert(mask_count(Shape::S, 0) == 4);
            assert(mask_count(Shape::S, 1) == 4);
            assert(mask_count(Shape::S, 2) == 4);
            assert(mask_count(Shape::S, 3) == 4);
        },
        Shape::T => {
            assert(mask_count(Shape::T, 0) == 4);
            assert(mask_count(Shape::T, 1) == 4);
            assert(mask_count(Shape::T, 2) == 4);
            assert(mask_count(Shape::T, 3) == 4);
        },
        Shape::Z => {
            assert(mask_count(Shape::Z, 0) == 4);
            assert(mask_count(Shape::Z, 1) == 4);
            assert(mask_count(Shape::Z, 2) == 4);
            assert(mask_count(Shape::Z, 3) == 4);
        },
    }
}

/// Every mask has at least one occupied cell (it has exactly four).
pub proof fn lemma_mask_nonempty(shape: Shape, rot: int)
    requires
        0 <= rot < 4,
    ensures
        exists|x: int, y: int| occ(shape, rot, x, y),
{
    match shape {
        Shape::I => {
            assert(occ(Shape::I, 0, 0, 2));
            assert(occ(Shape::I, 1, 2, 0));
            assert(occ(Shape::I, 2, 0, 1));
            assert(occ(Shape::I, 3, 1, 0));
        },
        Shape::J => {
            assert(occ(Shape::J, 0, 0, 3));
            assert(occ(Shape::J, 1, 1, 3));
            assert(occ(Shape::J, 2, 0, 2));
            assert(occ(Shape::J, 3, 1, 3));
        },
        Shape::L => {
            assert(occ(Shape::L, 0, 2, 3));
            assert(occ(Shape::L, 1, 1, 3));
            assert(occ(Shape::L, 2, 0, 2));
            assert(occ(Shape::L, 3, 0, 3));
        },
        Shape::O => {
            assert(occ(Shape::O, 0, 1, 3));
            assert(occ(Shape::O, 1, 1, 3));
            assert(occ(Shape::O, 2, 1, 3));
            assert(occ(Shape::O, 3, 1, 3));
        },
        Shape::S => {
            assert(occ(Shape::S, 0, 1, 3));
            assert(occ(Shape::S, 1, 1, 3));
            assert(occ(Shape::S, 2, 1, 2));
            assert(occ(Shape::S, 3, 0, 3));
        },
        Shape::T => {
            assert(occ(Shape::T, 0, 1, 3));
            assert(occ(Shape::T, 1, 1, 3));
            assert(occ(Shape::T, 2, 0, 2));
            assert(occ(Shape::T, 3, 1, 3));
        },
        Shape::Z => {
            assert(occ(Shape::Z, 0, 0, 3));
            assert(occ(Shape::Z, 1, 2, 3));
            assert(occ(Shape::Z, 2, 0, 2));
            assert(occ(Shape::Z, 3, 1, 3));
        },
    }
}

/// The row the piece's bounding box comes to rest on when dropped straight
/// down from `(px, py)`: the first row at or below `py` from which one more
/// step down is obstructed. Drops always terminate because every mask has a
/// block and no block can sink below the floor.
pub open spec fn drop_y(shape: Shape, rot: int, px: int, py: int, f: PlayingField) -> int
    decreases py + 4,
        when py >= -4 && 0 <= rot < 4
{
    if obstructed_at(shape, rot, px, py - 1, f) {
        py
    } else {
        proof {
            lemma_mask_nonempty(shape, rot);
            let (x, y) = choose|x: int, y: int| occ(shape, rot, x, y);
            lemma_occ_in_range(shape, rot, x, y);
            assert(!blocked(f, px + x, py - 1 + y));
        }
        drop_y(shape, rot, px, py - 1, f)
    }
}

/// A drop never raises the piece and never sinks it below the floor margin.
pub proof fn lemma_drop_y_range(shape: Shape, rot: int, px: int, py: int, f: PlayingField)
    requires
        0 <= rot < 4,
        py >= -3,
    ensures
        -3 <= drop_y(shape, rot, px, py, f) <= py,
    decreases py + 3,
{
    if !obstructed_at(shape, rot, px, py - 1, f) {
        lemma_mask_nonempty(shape, rot);
        let (x, y) = choose|x: int, y: int| occ(shape, rot, x, y);
        lemma_occ_in_range(shape, rot, x, y);
        assert(!blocked(f, px + x, py - 1 + y));
        lemma_drop_y_range(shape, rot, px, py - 1, f);
    }
}

/// An unobstructed piece sits with its bounding box near the field: all its
/// blocks lie within the horizontal bounds and at or above the floor.
pub proof fn lemma_unobstructed_pos(shape: Shape, rot: int, px: int, py: int, f: PlayingField)
    requires
        0 <= rot < 4,
        !obstructed_at(shape, rot, px, py, f),
    ensures
        -3 <= px <= 9,
        py >= -3,
{
    lemma_mask_nonempty(shape, rot);
    let (x, y) = choose|x: int, y: int| occ(shape, rot, x, y);
    lemma_occ_in_range(shape, rot, x, y);
    assert(!blocked(f, px + x, py + y));
}

/// The topmost occupied mask row of each (shape, rotation state) mask.
pub open spec fn mask_top(shape: Shape, rot: int) -> int {
    match shape {
        Shape::I => if rot == 0 {
            2
        } else if rot == 2 {
            1
        } else {
            3
        },
        Shape::O => 3,
        _ => if rot == 2 {
            2
        } else {
            3
        },
    }
}

/// `mask_top` is the topmost occupied mask row: no block sits above it and
/// some block sits on it.
pub proof fn lemma_mask_top(shape: Shape, rot: int)
    requires
        0 <= rot < 4,
    ensures
        forall|x: int, y: int| occ(shape, rot, x, y) ==> y <= mask_top(shape, rot),
        exists|x: int| occ(shape, rot, x, mask_top(shape, rot)),
{
    match shape {
        Shape::I => {
            if rot == 0 {
                assert(occ(Shape::I, rot, 0, mask_top(Shape::I, rot)));
            } else if rot == 1 {
                assert(occ(Shape::I, rot, 2, mask_top(Shape::I, rot)));
            } else if rot == 2 {
                assert(occ(Shape::I, rot, 0, mask_top(Shape::I, rot)));
            } else {
                assert(occ(Shape::I, rot, 1, mask_top(Shape::I, rot)));
            }
        },
        Shape::J => {
            if rot == 0 {
                assert(occ(Shape::J, rot, 0, mask_top(Shape::J, rot)));
            } else if rot == 1 {
                assert(occ(Shape::J, rot, 1, mask_top(Shape::J, rot)));
            } else if rot == 2 {
                assert(occ(Shape::J, rot, 0, mask_top(Shape::J, rot)));
            } else {
                assert(occ(Shape::J, rot, 1, mask_top(Shape::J, rot)));
            }
        },
        Shape::L => {
            if rot == 0 {
                assert(occ(Shape::L, rot, 2, mask_top(Shape::L, rot)));
            } else if rot == 1 {
                assert(occ(Shape::L, rot, 1, mask_top(Shape::L, rot)));
            } else if rot == 2 {
                assert(occ(Shape::L, rot, 0, mask_top(Shape::L, rot)));
            } else {
                assert(occ(Shape::L, rot, 0, mask_top(Shape::L, rot)));
            }
        },
        Shape::O => {
            assert(occ(Shape::O, rot, 1, mask_top(Shape::O, rot)));
        },
        Shape::S => {
            if rot == 0 {
                assert(occ(Shape::S, rot, 1, mask_top(Shape::S, rot)));
            } else if rot == 1 {
                assert(occ(Shape::S, rot, 1, mask_top(Shape::S, rot)));
            } else if rot == 2 {
                assert(occ(Shape::S, rot, 1, mask_top(Shape::S, rot)));
            } else {
                assert(occ(Shape::S, rot, 0, mask_top(Shape::S, rot)));
            }
        },
        Shape::T => {
            if rot == 0 {
                assert(occ(Shape::T, rot, 1, mask_top(Shape::T, rot)));
            } else if rot == 1 {
                assert(occ(Shape::T, rot, 1, mask_top(Shape::T, rot)));
            } else if rot == 2 {
                assert(occ(Shape::T, rot, 0, mask_top(Shape::T, rot)));
            } else {
                assert(occ(Shape::T, rot, 1, mask_top(Shape::T, rot)));
            }
        },
        Shape::Z => {
            if rot == 0 {
                assert(occ(Shape::Z, rot, 0, mask_top(Shape::Z, rot)));
            } else if rot == 1 {
                assert(occ(Shape::Z, rot, 2, mask_top(Shape::Z, rot)));
            } else if rot == 2 {
                assert(occ(Shape::Z, rot, 0, mask_top(Shape::Z, rot)));
            } else {
                assert(occ(Shape::Z, rot, 1, mask_top(Shape::Z, rot)));
            }
        },
    }
}

/// The topmost occupied mask row, executable twin of `mask_top`.
pub fn mask_top_of(shape: Shape, rotation: u8) -> (r: i32)
    requires
        rotation < 4,
    ensures
        r == mask_top(shape, rotation as int),
{
    match shape {
        Shape::I => {
            if rotation == 0 {
                2
            } else if rotation == 2 {
                1
            } else {
                3
            }
        },
        Shape::O => 3,
        _ => {
            if rotation == 2 {
                2
            } else {
                3
            }
        },
    }
}

/// Occupancy test, executable twin of `occ`.
pub fn occupied_at(shape: Shape, rotation: u8, x: usize, y: usize) -> (r: bool)
    requires
        rotation < 4,
        x < 4,
        y < 4,
    ensures
        r == occ(shape, rotation as int, x as int, y as int),
{
    match shape {
        Shape::I => {
            if rotation == 0 {
                y == 2
            } else if rotation == 1 {
                x == 2
            } else if rotation == 2 {
                y == 1
            } else {
                x == 1
            }
        },
        Shape::J => {
            if rotation == 0 {
                (x == 0 && y == 3) || (y == 2 && x <= 2)
            } else if rotation == 1 {
                (y == 3 && 1 <= x && x <= 2) || (x == 1 && 1 <= y && y <= 2)
            } else if rotation == 2 {
                (y == 2 && x <= 2) || (x == 2 && y == 1)
            } else {
                (x == 1 && 1 <= y) || (x == 0 && y == 1)
            }
        },
        Shape::L => {
            if rotation == 0 {
                (x == 2 && y == 3) || (y == 2 && x <= 2)
            } else if rotation == 1 {
                (x == 1 && 1 <= y) || (x == 2 && y == 1)
            } else if rotation == 2 {
                (y == 2 && x <= 2) || (x == 0 && y == 1)
            } else {
                (y == 3 && x <= 1) || (x == 1 && 1 <= y && y <= 2)
            }
        },
        Shape::O => 1 <= x && x <= 2 && 2 <= y,
        Shape::S => {
            if rotation == 0 {
                (y == 3 && 1 <= x && x <= 2) || (y == 2 && x <= 1)
            } else if rotation == 1 {
                (x == 1 && 2 <= y) || (x == 2 && 1 <= y && y <= 2)
            } else if rotation == 2 {
                (y == 2 && 1 <= x && x <= 2) || (y == 1 && x <= 1)
            } else {
                (x == 0 && 2 <= y) || (x == 1 && 1 <= y && y <= 2)
            }
        },
        Shape::T => {
            if rotation == 0 {
                (x == 1 && y == 3) || (y == 2 && x <= 2)
            } else if rotation == 1 {
                (x == 1 && 1 <= y) || (x == 2 && y == 2)
            } else if rotation == 2 {
                (y == 2 && x <= 2) || (x == 1 && y == 1)
            } else {
                (x == 1 && 1 <= y) || (x == 0 && y == 2)
            }
        },
        Shape::Z => {
            if rotation == 0 {
                (y == 3 && x <= 1) || (y == 2 && 1 <= x && x <= 2)
            } else if rotation == 1 {
                (x == 2 && 2 <= y) || (x == 1 && 1 <= y && y <= 2)
            } else if rotation == 2 {
                (y == 2 && x <= 1) || (y == 1 && 1 <= x && x <= 2)
            } else {
                (x == 1 && 2 <= y) || (x == 0 && 1 <= y && y <= 2)
            }
        },
    }
}

/// The fixed color of a shape, executable twin of `color_of`.
pub fn shape_color(shape: Shape) -> (r: BlockColor)
    ensures
        r == color_of(shape),
{
    match shape {
        Shape::I => BlockColor::Cyan,
        Shape::J => BlockColor::Blue,
        Shape::L => BlockColor::Orange,
        Shape::O => BlockColor::Yellow,
        Shape::S => BlockColor::Green,
        Shape::T => BlockColor::Purple,
        Shape::Z => BlockColor::Red,
    }
}

/// Whether field cell `(cx, cy)` obstructs a piece block: outside the
/// horizontal bounds, below the floor, or on an occupied cell. Rows at or
/// above the field's allocated height never obstruct.
pub open spec fn blocked(f: PlayingField, cx: int, cy: int) -> bool {
    cx < 0 || cx >= 10 || cy < 0 || (cy < 32 && f.cell(cx, cy).is_filled())
}

/// Whether the mask of `shape` at rotation `rot`, placed with its bounding
/// box's bottom-left corner at `(px, py)`, is obstructed on field `f`.
pub open spec fn obstructed_at(shape: Shape, rot: int, px: int, py: int, f: PlayingField) -> bool {
    exists|x: int, y: int| occ(shape, rot, x, y) && blocked(f, px + x, py + y)
}

/// An active piece: the bottom-left corner of its 4x4 bounding box, its
/// shape, and its rotation state.
///
/// Invariant (`inv`): the rotation state is one of 0..4; rotations advance
/// clockwise from the spawn state 0 and wrap around.
#[derive(Debug, Clone, Copy, PartialEq, Eq, Structural)]
pub struct Tetromino {
    pub position: BlockPos,
    pub shape: Shape,
    pub rotation_state: u8,
}

/// The ordered kick offsets tried for a rotation of `shape` that lands in
/// rotation state `new_rot`, turning clockwise iff `cw`. The {J,L,S,T,Z}
/// group and the I piece have distinct tables; O has an all-zero table.
pub open spec fn kicks(shape: Shape, new_rot: int, cw: bool) -> Seq<(int, int)> {
    match shape {
        Shape::O => seq![(0int, 0int), (0int, 0int), (0int, 0int), (0int, 0int)],
        Shape::I => {
            if cw {
                if new_rot == 0 {
                    seq![(1int, 0int), (-2int, 0int), (1int, -2int), (-2int, 1int)]
                } else if new_rot == 1 {
                    seq![(-2int, 0int), (1int, 0int), (-2int, -1int), (1int, 2int)]
                } else if new_rot == 2 {
                    seq![(-1int, 0int), (2int, 0int), (-1int, 2int), (2int, -1int)]
                } else {
                    seq![(2int, 0int), (-1int, 0int), (2int, 1int), (-1int, -2int)]
                }
            } else {
                if new_rot == 0 {
                    seq![(2int, 0int), (-1int, 0int), (2int, 1int), (-1int, -2int)]
                } else if new_rot == 1 {
                    seq![(1int, 0int), (-2int, 0int), (1int, -2int), (-2int, 1int)]
                } else if new_rot == 2 {
                    seq![(-2int, 0int), (1int, 0int), (-2int, 1int), (1int, 2int)]
                } else {
                    seq![(-1int, 0int), (2int, 0int), (-1int, 2int), (2int, -1int)]
                }
            }
        },
        _ => {
            if cw {
                if new_rot == 0 {
                    seq![(-1int, 0int), (-1int, -1int), (0int, 2int), (-1int, 2int)]
                } else if new_rot == 1 {
                    seq![(-1int, 0int), (-1int, 1int), (0int, -2int), (-1int, -2int)]
                } else if new_rot == 2 {
                    seq![(1int, 0int), (1int, -1int), (0int, 2int), (1int, 2int)]
                } else {
                    seq![(1int, 0int), (1int, 1int), (0int, -2int), (1int, -2int)]
                }
            } else {
                if new_rot == 0 {
                    seq![(1int, 0int), (1int, -1int), (0int, 2int), (1int, 2int)]
                } else if new_rot == 1 {
                    seq![(-1int, 0int), (-1int, 1int), (0int, -2int), (-1int, -2int)]
                } else if new_rot == 2 {
                    seq![(-1int, 0int), (-1int, -1int), (0int, 2int), (-1int, 2int)]
                } else {
                    seq![(1int, 0int), (1int, 1int), (0int, -2int), (1int, -2int)]
                }
            }
        },
    }
}

/// The kick offsets for one rotation, executable twin of `kicks`.
fn kick_offsets(shape: Shape, new_rot: u8, cw: bool) -> (r: (BlockPos, BlockPos, BlockPos, BlockPos))
    requires
        new_rot < 4,
    ensures
        ({
            let ks = kicks(shape, new_rot as int, cw);
            r.0.x == ks[0].0 && r.0.y == ks[0].1 && r.1.x == ks[1].0 && r.1.y == ks[1].1
                && r.2.x == ks[2].0 && r.2.y == ks[2].1 && r.3.x == ks[3].0 && r.3.y == ks[3].1
        }),
{
    match shape {
        Shape::O => (
            BlockPos::new(0, 0),
            BlockPos::new(0, 0),
            BlockPos::new(0, 0),
            BlockPos::new(0, 0),
        ),
        Shape::I => {
            if cw {
                if new_rot == 0 {
                    (
                        BlockPos::new(1, 0),
                        BlockPos::new(-2, 0),
                        BlockPos::new(1, -2),
                        BlockPos::new(-2, 1),
                    )
                } else if new_rot == 1 {
                    (
                        BlockPos::new(-2, 0),
                        BlockPos::new(1, 0),
                        BlockPos::new(-2, -1),
                        BlockPos::new(1, 2),
                    )
                } else if new_rot == 2 {
                    (
                        BlockPos::new(-1, 0),
                        BlockPos::new(2, 0),
                        BlockPos::new(-1, 2),
                        BlockPos::new(2, -1),
                    )
                } else {
                    (
                        BlockPos::new(2, 0),
                        BlockPos::new(-1, 0),
                        BlockPos::new(2, 1),
                        BlockPos::new(-1, -2),
                    )
                }
            } else {
                if new_rot == 0 {
                    (
                        BlockPos::new(2, 0),
                        BlockPos::new(-1, 0),
                        BlockPos::new(2, 1),
                        BlockPos::new(-1, -2),
                    )
                } else if new_rot == 1 {
                    (
                        BlockPos::new(1, 0),
                        BlockPos::new(-2, 0),
                        BlockPos::new(1, -2),
                        BlockPos::new(-2, 1),
                    )
                } else if new_rot == 2 {
                    (
                        BlockPos::new(-2, 0),
                        BlockPos::new(1, 0),
                        BlockPos::new(-2, 1),
                        BlockPos::new(1, 2),
                    )
                } else {
                    (
                        BlockPos::new(-1, 0),
                        BlockPos::new(2, 0),
                        BlockPos::new(-1, 2),
                        BlockPos::new(2, -1),
                    )
                }
            }
        },
        _ => {
            if cw {
                if new_rot == 0 {
                    (
                        BlockPos::new(-1, 0),
                        BlockPos::new(-1, -1),
                        BlockPos::new(0, 2),
                        BlockPos::new(-1, 2),
                    )
                } else if new_rot == 1 {
                    (
                        BlockPos::new(-1, 0),
                        BlockPos::new(-1, 1),
                        BlockPos::new(0, -2),
                        BlockPos::new(-1, -2),
                    )
                } else if new_rot == 2 {
                    (
                        BlockPos::new(1, 0),
                        BlockPos::new(1, -1),
                        BlockPos::new(0, 2),
                        BlockPos::new(1, 2),
                    )
                } else {
                    (
                        BlockPos::new(1, 0),
                        BlockPos::new(1, 1),
                        BlockPos::new(0, -2),
                        BlockPos::new(1, -2),
                    )
                }
            } else {
                if new_rot == 0 {
                    (
                        BlockPos::new(1, 0),
                        BlockPos::new(1, -1),
                        BlockPos::new(0, 2),
                        BlockPos::new(1, 2),
                    )
                } else if new_rot == 1 {
                    (
                        BlockPos::new(-1, 0),
                        BlockPos::new(-1, 1),
                        BlockPos::new(0, -2),
                        BlockPos::new(-1, -2),
                    )
                } else if new_rot == 2 {
                    (
                        BlockPos::new(-1, 0),
                        BlockPos::new(-1, -1),
                        BlockPos::new(0, 2),
                        BlockPos::new(-1, 2),
                    )
                } else {
                    (
                        BlockPos::new(1, 0),
                        BlockPos::new(1, 1),
                        BlockPos::new(0, -2),
                        BlockPos::new(1, -2),
                    )
                }
            }
        },
    }
}

impl Tetromino {
    /// The piece invariant: a rotation state in 0..4.
    pub open spec fn inv(self) -> bool {
        self.rotation_state < 4
    }

    /// Whether the piece is obstructed at its own position.
    pub open spec fn is_obstructed(self, f: PlayingField) -> bool {
        obstructed_at(
            self.shape,
            self.rotation_state as int,
            self.position.x as int,
            self.position.y as int,
            f,
        )
    }

    /// The piece after one rotation of `self` on field `f`, clockwise iff
    /// `cw`, together with the failure flag the rotation reports.
    ///
    /// The rotation state advances (or retreats) by one modulo 4. If the
    /// piece is unobstructed there, the rotation commits in place; otherwise
    /// the four kick offsets are tried in order and the first unobstructed
    /// one wins. If none fits, the piece is unchanged and failure reported.
    /// The outcome is a function of the piece and the field alone, so
    /// rotation is deterministic.
    pub open spec fn rotate_outcome(self, f: PlayingField, cw: bool) -> (bool, Tetromino) {
        let nr = if cw {
            (self.rotation_state as int + 1) % 4
        } else {
            (self.rotation_state as int + 3) % 4
        };
        let px = self.position.x as int;
        let py = self.position.y as int;
        let ks = kicks(self.shape, nr, cw);
        if !obstructed_at(self.shape, nr, px, py, f) {
            (false, self.at(nr, px, py))
        } else if !obstructed_at(self.shape, nr, px + ks[0].0, py + ks[0].1, f) {
            (false, self.at(nr, px + ks[0].0, py + ks[0].1))
        } else if !obstructed_at(self.shape, nr, px + ks[1].0, py + ks[1].1, f) {
            (false, self.at(nr, px + ks[1].0, py + ks[1].1))
        } else if !obstructed_at(self.shape, nr, px + ks[2].0, py + ks[2].1, f) {
            (false, self.at(nr, px + ks[2].0, py + ks[2].1))
        } else if !obstructed_at(self.shape, nr, px + ks[3].0, py + ks[3].1, f) {
            (false, self.at(nr, px + ks[3].0, py + ks[3].1))
        } else {
            (true, self)
        }
    }

    /// The same piece at rotation state `rot` and position `(px, py)`.
    pub open spec fn at(self, rot: int, px: int, py: int) -> Tetromino {
        Tetromino {
            position: BlockPos { x: px as i32, y: py as i32 },
            shape: self.shape,
            rotation_state: rot as u8,
        }
    }

    /// A freshly spawned piece: bounding box at (3, 20), spawn rotation.
    pub fn new(shape: Shape) -> (r: Self)
        ensures
            r == (Tetromino { position: BlockPos { x: 3, y: 20 }, shape, rotation_state: 0 }),
    {
        Self { position: BlockPos::new(3, 20), shape, rotation_state: 0 }
    }

    /// Whether the piece intersects a wall, the floor, or a placed block.
    pub fn obstructed(&self, game: &PlayingField) -> (r: bool)
        requires
            self.inv(),
            game.wf(),
        ensures
            r == self.is_obstructed(*game),
    {
        let px = self.position.x;
        let py = self.position.y;
        let mut x: usize = 0;
        while x < 4
            invariant
                self.inv(),
                game.wf(),
                px == self.position.x,
                py == self.position.y,
                x <= 4,
                forall|i: int, j: int|
                    0 <= i < x && 0 <= j < 4 ==> !(occ(self.shape, self.rotation_state as int, i, j)
                        && blocked(*game, px + i, py + j)),
            decreases 4 - x,
        {
            let mut y: usize = 0;
            while y < 4
                invariant
                    self.inv(),
                    game.wf(),
                    px == self.position.x,
                    py == self.position.y,
                    x < 4,
                    y <= 4,
                    forall|i: int, j: int|
                        0 <= i < x && 0 <= j < 4 ==> !(occ(
                            self.shape,
                            self.rotation_state as int,
                            i,
                            j,
                        ) && blocked(*game, px + i, py + j)),
                    forall|j: int|
                        0 <= j < y ==> !(occ(self.shape, self.rotation_state as int, x as int, j)
                            && blocked(*game, px + x, py + j)),
                decreases 4 - y,
            {
                if occupied_at(self.shape, self.rotation_state, x, y) {
                    let cx: i64 = px as i64 + x as i64;
                    let cy: i64 = py as i64 + y as i64;
                    if cx < 0 || cx >= 10 || cy < 0 {
                        proof {
                            assert(occ(self.shape, self.rotation_state as int, x as int, y as int)
                                && blocked(*game, px + x, py + y));
                        }
                        return true;
                    }
                    if cy < 32 {
                        let c = game.get(cx as usize, cy as usize);
                        if let Block::Block { .. } = c {
                            proof {
                                assert(occ(
                                    self.shape,
                                    self.rotation_state as int,
                                    x as int,
                                    y as int,
                                ) && blocked(*game, px + x, py + y));
                            }
                            return true;
                        }
                    }
                }
                y += 1;
            }
            x += 1;
        }
        false
    }

    /// Attempt to move the piece by `direction`. If the moved piece would be
    /// obstructed the piece is unchanged and `true` (failure) is returned;
    /// otherwise the move commits and `false` is returned.
    pub fn translate(&mut self, direction: BlockPos, game: &PlayingField) -> (failed: bool)
        requires
            old(self).inv(),
            game.wf(),
            i32::MIN <= old(self).position.x + direction.x <= i32::MAX,
            i32::MIN <= old(self).position.y + direction.y <= i32::MAX,
        ensures
            final(self).inv(),
            failed == obstructed_at(
                old(self).shape,
                old(self).rotation_state as int,
                old(self).position.x + direction.x,
                old(self).position.y + direction.y,
                *game,
            ),
            failed ==> *final(self) == *old(self),
            !failed ==> *final(self) == old(self).at(
                old(self).rotation_state as int,
                old(self).position.x + direction.x,
                old(self).position.y + direction.y,
            ),
    {
        let nx: i32 = self.position.x + direction.x;
        let ny: i32 = self.position.y + direction.y;
        let moved = Tetromino {
            position: BlockPos::new(nx, ny),
            shape: self.shape,
            rotation_state: self.rotation_state,
        };
        if moved.obstructed(game) {
            true
        } else {
            self.position = BlockPos::new(nx, ny);
            false
        }
    }

    /// Attempt to rotate the piece clockwise, trying the kick offsets in
    /// order when the plain rotation is obstructed. Returns `true` when the
    /// rotation failed and the piece is unchanged.
    pub fn rotate_cw(&mut self, game: &PlayingField) -> (failed: bool)
        requires
            old(self).inv(),
            game.wf(),
            i32::MIN + 2 <= old(self).position.x <= i32::MAX - 2,
            i32::MIN + 2 <= old(self).position.y <= i32::MAX - 2,
        ensures
            final(self).inv(),
            failed == old(self).rotate_outcome(*game, true).0,
            *final(self) == old(self).rotate_outcome(*game, true).1,
    {
        let prev: u8 = self.rotation_state;
        self.rotation_state = (self.rotation_state + 1) % 4;
        if !self.obstructed(game) {
            return false;
        }
        let (k0, k1, k2, k3) = kick_offsets(self.shape, self.rotation_state, true);
        if !self.translate(k0, game) {
            return false;
        }
        if !self.translate(k1, game) {
            return false;
        }
        if !self.translate(k2, game) {
            return false;
        }
        if !self.translate(k3, game) {
            return false;
        }
        self.rotation_state = prev;
        true
    }

    /// Attempt to rotate the piece counter-clockwise; the mirror image of
    /// `rotate_cw` with its own kick tables.
    pub fn rotate_ccw(&mut self, game: &PlayingField) -> (failed: bool)
        requires
            old(self).inv(),
            game.wf(),
            i32::MIN + 2 <= old(self).position.x <= i32::MAX - 2,
            i32::MIN + 2 <= old(self).position.y <= i32::MAX - 2,
        ensures
            final(self).inv(),
            failed == old(self).rotate_outcome(*game, false).0,
            *final(self) == old(self).rotate_outcome(*game, false).1,
    {
        let prev: u8 = self.rotation_state;
        self.rotation_state = (self.rotation_state + 3) % 4;
        if !self.obstructed(game) {
            return false;
        }
        let (k0, k1, k2, k3) = kick_offsets(self.shape, self.rotation_state, false);
        if !self.translate(k0, game) {
            return false;
        }
        if !self.translate(k1, game) {
            return false;
        }
        if !self.translate(k2, game) {
            return false;
        }
        if !self.translate(k3, game) {
            return false;
        }
        self.rotation_state = prev;
        true
    }

    /// The piece's 4x4 block grid, indexed `[x][y]`: its occupancy mask
    /// rendered as colored blocks.
    pub fn get_shape(&self) -> (r: [[Block; 4]; 4])
        requires
            self.inv(),
        ensures
            forall|x: int, y: int|
                0 <= x < 4 && 0 <= y < 4 ==> r@[x][y] == (if occ(
                    self.shape,
                    self.rotation_state as int,
                    x,
                    y,
                ) {
                    (Block::Block { color: color_of(self.shape) })
                } else {
                    Block::Air
                }),
    {
        let mut grid: [[Block; 4]; 4] = [[Block::Air; 4]; 4];
        let color = shape_color(self.shape);
        let mut x: usize = 0;
        while x < 4
            invariant
                self.inv(),
                color == color_of(self.shape),
                x <= 4,
                forall|i: int, j: int|
                    0 <= i < x && 0 <= j < 4 ==> grid@[i][j] == (if occ(
                        self.shape,
                        self.rotation_state as int,
                        i,
                        j,
                    ) {
                        (Block::Block { color: color_of(self.shape) })
                    } else {
                        Block::Air
                    }),
                forall|i: int, j: int| x <= i < 4 && 0 <= j < 4 ==> grid@[i][j] == Block::Air,
            decreases 4 - x,
        {
            let mut y: usize = 0;
            while y < 4
                invariant
                    self.inv(),
                    color == color_of(self.shape),
                    x < 4,
                    y <= 4,
                    forall|i: int, j: int|
                        0 <= i < x && 0 <= j < 4 ==> grid@[i][j] == (if occ(
                            self.shape,
                            self.rotation_state as int,
                            i,
                            j,
                        ) {
                            (Block::Block { color: color_of(self.shape) })
                        } else {
                            Block::Air
                        }),
                    forall|j: int|
                        0 <= j < y ==> grid@[x as int][j] == (if occ(
                            self.shape,
                            self.rotation_state as int,
                            x as int,
                            j,
                        ) {
                            (Block::Block { color: color_of(self.shape) })
                        } else {
                            Block::Air
                        }),
                    forall|j: int| y <= j < 4 ==> grid@[x as int][j] == Block::Air,
                    forall|i: int, j: int| x < i < 4 && 0 <= j < 4 ==> grid@[i][j] == Block::Air,
                decreases 4 - y,
            {
                if occupied_at(self.shape, self.rotation_state, x, y) {
                    grid[x][y] = Block::Block { color };
                }
                y += 1;
            }
            x += 1;
        }
        grid
    }
}

/// Every kick offset is at most two cells in either direction.
pub proof fn lemma_kicks_bounds(shape: Shape, new_rot: int, cw: bool)
    ensures
        forall|i: int|
            0 <= i < 4 ==> -2 <= #[trigger] kicks(shape, new_rot, cw)[i].0 <= 2 && -2 <= kicks(
                shape,
                new_rot,
                cw,
            )[i].1 <= 2,
{
    let ks = kicks(shape, new_rot, cw);
    assert forall|i: int|
        0 <= i < 4 implies -2 <= #[trigger] ks[i].0 <= 2 && -2 <= ks[i].1 <= 2 by {
        assert(i == 0 || i == 1 || i == 2 || i == 3);
    }
}

/// A rotation outcome is again a well-formed piece resting against the
/// field, and a kick raises the piece by at most two rows.
pub proof fn lemma_rotate_outcome_ok(p: Tetromino, f: PlayingField, cw: bool)
    requires
        p.inv(),
        -3 <= p.position.x <= 9,
        -3 <= p.position.y <= i32::MAX - 2,
    ensures
        p.rotate_outcome(f, cw).1.inv(),
        -3 <= p.rotate_outcome(f, cw).1.position.x <= 9,
        p.rotate_outcome(f, cw).1.position.y >= -3,
        p.rotate_outcome(f, cw).1.position.y <= p.position.y + 2,
{
    let nr0 = if cw {
        (p.rotation_state as int + 1) % 4
    } else {
        (p.rotation_state as int + 3) % 4
    };
    lemma_kicks_bounds(p.shape, nr0, cw);
    let nr = if cw {
        (p.rotation_state as int + 1) % 4
    } else {
        (p.rotation_state as int + 3) % 4
    };
    let px = p.position.x as int;
    let py = p.position.y as int;
    let ks = kicks(p.shape, nr, cw);
    if !obstructed_at(p.shape, nr, px, py, f) {
        lemma_unobstructed_pos(p.shape, nr, px, py, f);
    } else if !obstructed_at(p.shape, nr, px + ks[0].0, py + ks[0].1, f) {
        lemma_unobstructed_pos(p.shape, nr, px + ks[0].0, py + ks[0].1, f);
    } else if !obstructed_at(p.shape, nr, px + ks[1].0, py + ks[1].1, f) {
        lemma_unobstructed_pos(p.shape, nr, px + ks[1].0, py + ks[1].1, f);
    } else if !obstructed_at(p.shape, nr, px + ks[2].0, py + ks[2].1, f) {
        lemma_unobstructed_pos(p.shape, nr, px + ks[2].0, py + ks[2].1, f);
    } else if !obstructed_at(p.shape, nr, px + ks[3].0, py + ks[3].1, f) {
        lemma_unobstructed_pos(p.shape, nr, px + ks[3].0, py + ks[3].1, f);
    }
}

/// Rotation reversibility: for a piece on an open field (no obstruction at
/// its position in any rotation state), a clockwise rotation followed by a
/// counter-clockwise one — or vice versa — restores the original rotation
/// state and position, and neither rotation fails.
pub proof fn lemma_rotation_reversible(p: Tetromino, f: PlayingField, cw: bool)
    requires
        p.inv(),
        f.wf(),
        f.all_empty(),
        0 <= p.position.x <= 6,
        p.position.y >= 0,
    ensures
        !p.rotate_outcome(f, cw).0,
        p.rotate_outcome(f, cw).1.position == p.position,
        !p.rotate_outcome(f, cw).1.rotate_outcome(f, !cw).0,
        p.rotate_outcome(f, cw).1.rotate_outcome(f, !cw).1 == p,
{
    let px = p.position.x as int;
    let py = p.position.y as int;
    assert forall|rot: int| !obstructed_at(p.shape, rot, px, py, f) by {
        assert forall|x: int, y: int|
            occ(p.shape, rot, x, y) implies !blocked(f, px + x, py + y) by {
            lemma_occ_in_range(p.shape, rot, x, y);
            let cy = py + y;
            if cy < 32 {
                assert(f.row_empty(cy));
                assert(f.cell(px + x, cy) is Air);
            }
        }
    }
    let q = p.rotate_outcome(f, cw).1;
    assert(q.position == p.position);
    let r = q.rotate_outcome(f, !cw).1;
    assert(p.rotation_state == 0 || p.rotation_state == 1 || p.rotation_state == 2
        || p.rotation_state == 3);
    assert(r.rotation_state == p.rotation_state);
    assert(r == p);
}

} // verus!
