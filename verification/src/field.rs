use vstd::prelude::*;

use crate::block::{Block, BlockColor};

verus! {

/// Number of rows a playing field always holds. The visible board is the
/// lower 20 rows; the rows above act as a death-check margin.
pub const FIELD_ROWS: usize = 32;

/// Number of cells in each row.
pub const FIELD_COLS: usize = 10;

/// The playing field: an ordered sequence of 32 rows of 10 cells each.
/// Row index increases upward; rows are addressed absolutely.
///
/// Invariant (`wf`): the field holds exactly 32 rows at all times; every
/// operation that removes a row reinserts a fresh one.
pub struct PlayingField {
    pub rows: Vec<[Block; 10]>,
}

impl PlayingField {
    /// The field invariant: exactly 32 rows.
    pub open spec fn wf(self) -> bool {
        self.rows@.len() == 32
    }

    /// The cell at column `x`, row `y`.
    pub open spec fn cell(self, x: int, y: int) -> Block {
        self.rows@[y][x]
    }

    /// The whole field as a sequence of rows of cells.
    pub open spec fn grid(self) -> Seq<Seq<Block>> {
        Seq::new(self.rows@.len(), |y: int| self.rows@[y]@)
    }

    /// Whether every cell of row `y` is occupied.
    pub open spec fn row_full(self, y: int) -> bool {
        forall|x: int| 0 <= x < 10 ==> self.cell(x, y).is_filled()
    }

    /// Whether every cell of row `y` is empty.
    pub open spec fn row_empty(self, y: int) -> bool {
        forall|x: int| 0 <= x < 10 ==> self.cell(x, y) is Air
    }

    /// Whether the whole field is empty.
    pub open spec fn all_empty(self) -> bool {
        forall|y: int| 0 <= y < 32 ==> self.row_empty(y)
    }

    /// Bridges the row-of-cells view `grid` with per-cell access.
    pub proof fn lemma_grid_cells(f: PlayingField)
        ensures
            f.grid().len() == f.rows@.len(),
            forall|y: int, x: int|
                0 <= y < f.rows@.len() && 0 <= x < 10 ==> #[trigger] f.grid()[y][x] == f.cell(x, y),
            forall|y: int| 0 <= y < f.rows@.len() ==> #[trigger] f.grid()[y].len() == 10,
    {
    }

    /// A fresh field: 32 rows of air.
    pub fn new() -> (r: Self)
        ensures
            r.wf(),
            r.all_empty(),
    {
        let mut rows: Vec<[Block; 10]> = Vec::new();
        let mut i: usize = 0;
        while i < 32
            invariant
                rows@.len() == i,
                i <= 32,
                forall|y: int, x: int| 0 <= y < i && 0 <= x < 10 ==> rows@[y][x] is Air,
            decreases 32 - i,
        {
            rows.push([Block::Air; 10]);
            i += 1;
        }
        PlayingField { rows }
    }

    /// Read one cell.
    pub fn get(&self, x: usize, y: usize) -> (r: Block)
        requires
            self.wf(),
            x < 10,
            y < 32,
        ensures
            r == self.cell(x as int, y as int),
    {
        self.rows[y][x]
    }

    /// Write one cell.
    pub fn set(&mut self, x: usize, y: usize, b: Block)
        requires
            old(self).wf(),
            x < 10,
            y < 32,
        ensures
            final(self).wf(),
            final(self).cell(x as int, y as int) == b,
            forall|i: int, j: int|
                0 <= i < 10 && 0 <= j < 32 && !(i == x && j == y)
                    ==> final(self).cell(i, j) == old(self).cell(i, j),
    {
        self.rows[y][x] = b;
    }

    /// Whether row `y` is completely filled.
    pub fn is_row_full(&self, y: usize) -> (r: bool)
        requires
            self.wf(),
            y < 32,
        ensures
            r == self.row_full(y as int),
    {
        let mut x: usize = 0;
        while x < 10
            invariant
                self.wf(),
                y < 32,
                x <= 10,
                forall|i: int| 0 <= i < x ==> self.cell(i, y as int).is_filled(),
            decreases 10 - x,
        {
            let c = self.rows[y][x];
            if let Block::Air = c {
                proof {
                    assert(!self.cell(x as int, y as int).is_filled());
                }
                return false;
            }
            x += 1;
        }
        true
    }

    /// Remove row `n`: every row above shifts down by one and a fresh empty
    /// row appears at the top, so the field keeps exactly 32 rows.
    pub fn remove_line(&mut self, n: usize)
        requires
            old(self).wf(),
            n < 32,
        ensures
            final(self).wf(),
            forall|x: int, y: int|
                0 <= x < 10 && 0 <= y < n ==> final(self).cell(x, y) == old(self).cell(x, y),
            forall|x: int, y: int|
                0 <= x < 10 && n <= y < 31 ==> final(self).cell(x, y) == old(self).cell(x, y + 1),
            forall|x: int| 0 <= x < 10 ==> final(self).cell(x, 31) is Air,
    {
        self.rows.remove(n);
        self.rows.push([Block::Air; 10]);
    }

    /// The content of a garbage row whose only hole is at column `spot`.
    pub open spec fn garbage_cell(spot: int, x: int) -> Block {
        if x == spot {
            Block::Air
        } else {
            Block::Block { color: BlockColor::Gray }
        }
    }

    /// Insert one garbage row at the bottom, with its hole at column `spot`.
    /// Every other row shifts up by one; the topmost row is discarded.
    pub fn insert_garbage_row(&mut self, spot: usize)
        requires
            old(self).wf(),
            spot < 10,
        ensures
            final(self).wf(),
            forall|x: int| 0 <= x < 10 ==> final(self).cell(x, 0) == Self::garbage_cell(spot as int, x),
            forall|x: int, y: int|
                0 <= x < 10 && 1 <= y < 32 ==> final(self).cell(x, y) == old(self).cell(x, y - 1),
    {
        let mut row = [Block::Block { color: BlockColor::Gray }; 10];
        row[spot] = Block::Air;
        self.rows.insert(0, row);
        self.rows.pop();
    }
}

} // verus!
