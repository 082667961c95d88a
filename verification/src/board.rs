use vstd::prelude::*;

use crate::block::Block;
use crate::effects::{BoardEvent, InfoText, INFO_TEXT_MS};
use crate::field::PlayingField;
use crate::keys::{soft_drop_held, step_timing, timing_step, Key, KeyInput, KeyTiming};
use crate::piece_generator::PieceGenerator;
use crate::rng::rng_next_u32;
use crate::score::{attack_value, b2b_after, combo_after, is_tspin, label_of, ScoreHandler};
use crate::tetromino::{
    color_of, drop_y, lemma_drop_y_range, lemma_unobstructed_pos, mask_top, mask_top_of,
    obstructed_at, occ, occupied_at, shape_color, Shape, Tetromino,
};
use crate::util::BlockPos;

verus! {

/// Row at which a locked piece's topmost block kills the board.
pub const DEATH_ROW: i32 = 20;

/// Gravity interval while soft drop is held, in milliseconds.
pub const SOFT_DROP_MS: u64 = 20;

/// Gravity interval otherwise, in milliseconds.
pub const GRAVITY_MS: u64 = 1000;

/// How long a piece may rest on the ground before it locks.
pub const LOCK_DELAY_MS: u64 = 500;

/// How many moves a resting piece may make before it locks anyway.
pub const MAX_MOVES_ON_GROUND: u32 = 10;

/// A piece freshly spawned for `shape`.
pub open spec fn spawn_piece(shape: Shape) -> Tetromino {
    Tetromino { position: BlockPos { x: 3, y: 20 }, shape, rotation_state: 0 }
}

/// The falling piece's bounding box stays against the field horizontally
/// and never sinks below the floor margin. (It may rise freely; only the
/// death check bounds it above.)
pub open spec fn piece_pos_ok(p: Tetromino) -> bool {
    &&& -3 <= p.position.x <= 9
    &&& p.position.y >= -3
}

/// The piece at its lowest legal position straight below `p`.
pub open spec fn dropped_piece(p: Tetromino, f: PlayingField) -> Tetromino {
    Tetromino {
        position: BlockPos {
            x: p.position.x,
            y: drop_y(
                p.shape,
                p.rotation_state as int,
                p.position.x as int,
                p.position.y as int,
                f,
            ) as i32,
        },
        shape: p.shape,
        rotation_state: p.rotation_state,
    }
}

/// One empty row of ten cells.
pub open spec fn empty_row() -> Seq<Block> {
    Seq::new(10, |x: int| Block::Air)
}

/// The grid with the piece's blocks written in; blocks outside the field's
/// 32 rows and 10 columns are discarded.
pub open spec fn bake_grid(g: Seq<Seq<Block>>, p: Tetromino) -> Seq<Seq<Block>> {
    Seq::new(
        g.len(),
        |y: int|
            Seq::new(
                10,
                |x: int|
                    if occ(
                        p.shape,
                        p.rotation_state as int,
                        x - p.position.x,
                        y - p.position.y,
                    ) {
                        Block::Block { color: color_of(p.shape) }
                    } else {
                        g[y][x]
                    },
            ),
    )
}

/// The grid with row `y` removed: rows above shift down by one and a fresh
/// empty row appears at the top.
pub open spec fn remove_row(g: Seq<Seq<Block>>, y: int) -> Seq<Seq<Block>> {
    g.remove(y).push(empty_row())
}

/// Whether row `y` of the grid is completely filled.
pub open spec fn grid_row_full(g: Seq<Seq<Block>>, y: int) -> bool {
    forall|x: int| 0 <= x < 10 ==> g[y][x].is_filled()
}

/// Scan rows from `y` down to `lo`, removing each full row the way the
/// landing step does, and count the removals.
pub open spec fn clear_rows(g: Seq<Seq<Block>>, lo: int, y: int) -> (Seq<Seq<Block>>, int)
    decreases y - lo + 1,
        when y + 1 >= lo
{
    if y < lo {
        (g, 0int)
    } else if grid_row_full(g, y) {
        let r = clear_rows(remove_row(g, y), lo, y - 1);
        (r.0, r.1 + 1)
    } else {
        clear_rows(g, lo, y - 1)
    }
}

/// A scan over `y - lo + 1` rows removes at most that many rows.
pub proof fn lemma_clear_rows_count(g: Seq<Seq<Block>>, lo: int, y: int)
    requires
        y + 1 >= lo,
    ensures
        0 <= clear_rows(g, lo, y).1 <= y - lo + 1,
    decreases y - lo + 1,
{
    if y >= lo {
        if grid_row_full(g, y) {
            lemma_clear_rows_count(remove_row(g, y), lo, y - 1);
        } else {
            lemma_clear_rows_count(g, lo, y - 1);
        }
    }
}

/// Rows removed when the landed piece `p`'s four-row span is scanned.
pub open spec fn span_cleared(g: Seq<Seq<Block>>, p: Tetromino) -> int {
    clear_rows(g, clamp32(p.position.y as int), clamp32(p.position.y + 4) - 1).1
}

/// The grid left when the landed piece `p`'s four-row span is scanned.
pub open spec fn span_cleared_grid(g: Seq<Seq<Block>>, p: Tetromino) -> Seq<Seq<Block>> {
    clear_rows(g, clamp32(p.position.y as int), clamp32(p.position.y + 4) - 1).0
}

/// `v` clamped to the field's row range.
pub open spec fn clamp32(v: int) -> int {
    if v < 0 {
        0int
    } else if v > 32 {
        32int
    } else {
        v
    }
}

/// One garbage row with its single hole at column `spot`.
pub open spec fn garbage_row(spot: int) -> Seq<Block> {
    Seq::new(10, |x: int| PlayingField::garbage_cell(spot, x))
}

/// The grid with `n` garbage rows pushed in at the bottom; everything else
/// shifts up and the topmost `n` rows are discarded.
pub open spec fn cheese_grid(g: Seq<Seq<Block>>, spot: int, n: int) -> Seq<Seq<Block>> {
    Seq::new(
        g.len(),
        |y: int|
            if y < n {
                garbage_row(spot)
            } else {
                g[y - n]
            },
    )
}

/// A sequence is a prefix of anything it has been extended to.
proof fn lemma_prefix_push<T>(a: Seq<T>, b: Seq<T>, x: T)
    requires
        a.is_prefix_of(b),
    ensures
        a.is_prefix_of(b.push(x)),
{
    assert(b.push(x).subrange(0, a.len() as int) =~= b.subrange(0, a.len() as int));
}

/// Prefixes compose.
proof fn lemma_prefix_trans<T>(a: Seq<T>, b: Seq<T>, c: Seq<T>)
    requires
        a.is_prefix_of(b),
        b.is_prefix_of(c),
    ensures
        a.is_prefix_of(c),
{
    assert(c.subrange(0, a.len() as int) =~= b.subrange(0, a.len() as int));
}

/// One player's whole rules state: the field, the active and derived
/// pieces, timing, score, and the garbage queues toward and from the peer.
///
/// The board is advanced by `update` once per frame with the sampled clock
/// and the held keys; it emits `BoardEvent`s for the cosmetic collaborators
/// and garbage counts on `outgoing` for the owner to pump into the peer.
pub struct Board {
    /// The playing field.
    pub blocks: PlayingField,
    /// Supplies the unending fair sequence of shapes.
    pub piece_generator: PieceGenerator,
    /// The piece under the player's control.
    pub falling_piece: Tetromino,
    /// The shape parked by swap, if any.
    pub swap_piece: Option<Shape>,
    /// The falling piece projected to its lowest legal position.
    pub ghost_piece: Tetromino,
    /// Whether swap was already used since the last spawn.
    pub swapped: bool,
    /// When gravity last pulled the piece down.
    pub last_update_time: u64,
    /// When the piece last came to rest on the ground.
    pub ground_time: u64,
    /// Moves made while resting on the ground.
    pub moves_on_ground: u32,
    /// Whether the piece currently rests on an obstruction.
    pub on_ground: bool,
    /// The death timestamp; `Some` freezes the board.
    pub death_time: Option<u64>,
    /// Pending incoming garbage line counts, oldest first.
    pub lines_received: Vec<u32>,
    /// Outbound garbage line counts for the peer, oldest first.
    pub outgoing: Vec<u32>,
    /// Combo and back-to-back state.
    pub score: ScoreHandler,
    /// The transient banner, if one is up.
    pub info: Option<InfoText>,
    /// Events for the cosmetic collaborators, oldest first.
    pub events: Vec<BoardEvent>,
    /// The injected random source for garbage hole columns.
    pub rng: rand::rngs::SmallRng,
}

impl Board {
    /// The board invariant.
    pub open spec fn wf(self) -> bool {
        &&& self.blocks.wf()
        &&& self.piece_generator.wf()
        &&& self.falling_piece.inv()
        &&& piece_pos_ok(self.falling_piece)
        &&& self.ghost_piece.inv()
        &&& piece_pos_ok(self.ghost_piece)
    }

    /// Fields a pure piece motion (move, rotate, gravity step) never touches.
    pub open spec fn motion_frame(b0: Board, b1: Board) -> bool {
        &&& b1.blocks == b0.blocks
        &&& b1.piece_generator == b0.piece_generator
        &&& b1.swap_piece == b0.swap_piece
        &&& b1.swapped == b0.swapped
        &&& b1.last_update_time == b0.last_update_time
        &&& b1.moves_on_ground == b0.moves_on_ground
        &&& b1.death_time == b0.death_time
        &&& b1.lines_received == b0.lines_received
        &&& b1.outgoing == b0.outgoing
        &&& b1.score == b0.score
        &&& b1.info == b0.info
        &&& b1.rng == b0.rng
    }

    /// How `on_ground` and `ground_time` relate to the (possibly moved)
    /// falling piece after a ground test at time `now`.
    pub open spec fn ground_post(b0: Board, b1: Board, now: u64) -> bool {
        &&& b1.on_ground == obstructed_at(
            b1.falling_piece.shape,
            b1.falling_piece.rotation_state as int,
            b1.falling_piece.position.x as int,
            b1.falling_piece.position.y - 1,
            b0.blocks,
        )
        &&& b1.ground_time == (if b1.on_ground && !b0.on_ground {
            now
        } else {
            b0.ground_time
        })
    }

    /// A fresh board: an empty field, a freshly seeded generator whose first
    /// draw is already falling, and zeroed score and timing state.
    pub fn new(
        generator_rng: rand::rngs::SmallRng,
        board_rng: rand::rngs::SmallRng,
        now: u64,
    ) -> (r: Board)
        ensures
            r.wf(),
            r.blocks.all_empty(),
            r.falling_piece == spawn_piece(r.falling_piece.shape),
            r.ghost_piece == dropped_piece(r.falling_piece, r.blocks),
            r.score == (ScoreHandler { combo: 0, b2b: 0 }),
            r.swap_piece is None,
            !r.swapped,
            r.death_time is None,
            r.lines_received@ == Seq::<u32>::empty(),
            r.outgoing@ == Seq::<u32>::empty(),
            r.events@ == Seq::<BoardEvent>::empty(),
            r.info is None,
            !r.on_ground,
            r.moves_on_ground == 0,
            r.last_update_time == now,
            r.ground_time == now,
            r.piece_generator.emitted@.len() == 1,
            r.falling_piece.shape == r.piece_generator.emitted@[0],
    {
        let blocks = PlayingField::new();
        let mut piece_generator = PieceGenerator::new(generator_rng);
        let falling_piece = Tetromino::new(piece_generator.next_piece());
        let ghost_piece = falling_piece;
        let mut board = Board {
            blocks,
            piece_generator,
            falling_piece,
            swap_piece: None,
            ghost_piece,
            swapped: false,
            last_update_time: now,
            ground_time: now,
            moves_on_ground: 0,
            on_ground: false,
            death_time: None,
            lines_received: Vec::new(),
            outgoing: Vec::new(),
            score: ScoreHandler::new(),
            info: None,
            events: Vec::new(),
            rng: board_rng,
        };
        board.update_ghost();
        board
    }

    /// Append `count` pending garbage lines from the peer. Never blocks,
    /// never fails.
    pub fn receive_garbage(&mut self, count: u32)
        ensures
            final(self).lines_received@ == old(self).lines_received@.push(count),
            *final(self) == (Board {
                lines_received: final(self).lines_received,
                ..*old(self)
            }),
    {
        self.lines_received.push(count);
    }

    /// Hand the queued outbound garbage to the owner, leaving the queue
    /// empty; the owner pumps these into the peer's `receive_garbage`.
    pub fn drain_outgoing(&mut self) -> (r: Vec<u32>)
        ensures
            r@ == old(self).outgoing@,
            final(self).outgoing@ == Seq::<u32>::empty(),
            *final(self) == (Board { outgoing: final(self).outgoing, ..*old(self) }),
    {
        let mut drained: Vec<u32> = Vec::new();
        core::mem::swap(&mut drained, &mut self.outgoing);
        drained
    }

    /// Whether moving the falling piece by `dir` would fail, leaving the
    /// board untouched.
    pub fn test_translation(&self, dir: BlockPos) -> (failed: bool)
        requires
            self.wf(),
            i32::MIN <= self.falling_piece.position.x + dir.x <= i32::MAX,
            i32::MIN <= self.falling_piece.position.y + dir.y <= i32::MAX,
        ensures
            failed == obstructed_at(
                self.falling_piece.shape,
                self.falling_piece.rotation_state as int,
                self.falling_piece.position.x + dir.x,
                self.falling_piece.position.y + dir.y,
                self.blocks,
            ),
    {
        let mut probe = self.falling_piece;
        probe.translate(dir, &self.blocks)
    }

    /// Re-test whether the piece rests on an obstruction, restarting the
    /// lock-delay clock when it just landed.
    pub fn test_ground(&mut self, now: u64)
        requires
            old(self).wf(),
        ensures
            final(self).wf(),
            Self::ground_post(*old(self), *final(self), now),
            final(self).falling_piece == old(self).falling_piece,
            final(self).ghost_piece == old(self).ghost_piece,
            final(self).events == old(self).events,
            Self::motion_frame(*old(self), *final(self)),
    {
        let was_on_ground = self.on_ground;
        self.on_ground = self.test_translation(BlockPos::new(0, -1));
        if self.on_ground && !was_on_ground {
            self.ground_time = now;
        }
    }

    /// Recompute the ghost piece: the falling piece translated down until
    /// the first obstruction.
    pub fn update_ghost(&mut self)
        requires
            old(self).wf(),
        ensures
            final(self).wf(),
            final(self).ghost_piece == dropped_piece(old(self).falling_piece, old(self).blocks),
            *final(self) == (Board { ghost_piece: final(self).ghost_piece, ..*old(self) }),
    {
        let p = self.falling_piece;
        let ghost shape = p.shape;
        let ghost rot = p.rotation_state as int;
        let ghost px = p.position.x as int;
        let ghost target = drop_y(shape, rot, px, p.position.y as int, self.blocks);
        proof {
            lemma_drop_y_range(shape, rot, px, p.position.y as int, self.blocks);
        }
        self.ghost_piece = p;
        loop
            invariant
                old(self).wf(),
                *self == (Board { ghost_piece: self.ghost_piece, ..*old(self) }),
                self.ghost_piece.shape == shape,
                self.ghost_piece.rotation_state == p.rotation_state,
                self.ghost_piece.position.x == p.position.x,
                p == old(self).falling_piece,
                shape == p.shape && rot == p.rotation_state as int && px == p.position.x as int,
                -3 <= self.ghost_piece.position.y,
                target <= self.ghost_piece.position.y,
                drop_y(shape, rot, px, self.ghost_piece.position.y as int, self.blocks) == target,
            ensures
                obstructed_at(shape, rot, px, self.ghost_piece.position.y - 1, self.blocks),
            decreases self.ghost_piece.position.y + 3,
        {
            let ghost y_before = self.ghost_piece.position.y as int;
            if self.ghost_piece.translate(BlockPos::new(0, -1), &self.blocks) {
                proof {
                    assert(obstructed_at(shape, rot, px, y_before - 1, self.blocks));
                    assert(drop_y(shape, rot, px, y_before, self.blocks) == y_before);
                }
                break;
            }
            proof {
                lemma_unobstructed_pos(shape, rot, px, y_before - 1, self.blocks);
                lemma_drop_y_range(shape, rot, px, y_before - 1, self.blocks);
            }
        }
        proof {
            assert(self.ghost_piece.position.y == target);
        }
    }

    /// Remove the full row `n` from the field, shifting everything above it
    /// down one row and appending a fresh empty row at the top, so the field
    /// keeps exactly 32 rows.
    pub fn remove_line(&mut self, n: usize)
        requires
            old(self).wf(),
            n < 32,
        ensures
            final(self).wf(),
            final(self).blocks.rows@.len() == 32,
            final(self).blocks.grid() == remove_row(old(self).blocks.grid(), n as int),
            final(self).events@ == old(self).events@.push(BoardEvent::LineCleared { row: n as u32 }),
            *final(self) == (Board {
                blocks: final(self).blocks,
                events: final(self).events,
                ..*old(self)
            }),
    {
        self.events.push(BoardEvent::LineCleared { row: n as u32 });
        self.blocks.remove_line(n);
        proof {
            PlayingField::lemma_grid_cells(self.blocks);
            PlayingField::lemma_grid_cells(old(self).blocks);
            assert(self.blocks.grid() =~~= remove_row(old(self).blocks.grid(), n as int));
        }
    }

    /// The state of a grid cell midway through baking: mask columns left of
    /// `upto_x`, and the cells below `upto_y` in column `upto_x`, have been
    /// written.
    pub open spec fn baked_cell(
        g: Seq<Seq<Block>>,
        p: Tetromino,
        cx: int,
        cy: int,
        upto_x: int,
        upto_y: int,
    ) -> Block {
        let i = cx - p.position.x;
        let j = cy - p.position.y;
        if occ(p.shape, p.rotation_state as int, i, j) && (i < upto_x || (i == upto_x && j
            < upto_y)) {
            Block::Block { color: color_of(p.shape) }
        } else {
            g[cy][cx]
        }
    }

    /// Write the falling piece's blocks into the field; blocks outside the
    /// field's 32 rows and 10 columns vanish above the margin.
    fn bake_piece(&mut self)
        requires
            old(self).wf(),
            old(self).falling_piece.position.y <= i32::MAX - 4,
        ensures
            final(self).wf(),
            final(self).blocks.grid() == bake_grid(
                old(self).blocks.grid(),
                old(self).falling_piece,
            ),
            *final(self) == (Board { blocks: final(self).blocks, ..*old(self) }),
    {
        let p = self.falling_piece;
        let ghost g0 = self.blocks.grid();
        let color = shape_color(p.shape);
        let mut x: usize = 0;
        while x < 4
            invariant
                old(self).wf(),
                p == old(self).falling_piece,
                color == color_of(p.shape),
                g0 == old(self).blocks.grid(),
                *self == (Board { blocks: self.blocks, ..*old(self) }),
                self.blocks.wf(),
                x <= 4,
                forall|cx: int, cy: int|
                    0 <= cx < 10 && 0 <= cy < 32 ==> self.blocks.cell(cx, cy)
                        == Self::baked_cell(g0, p, cx, cy, x as int, 0),
            decreases 4 - x,
        {
            let mut y: usize = 0;
            while y < 4
                invariant
                    old(self).wf(),
                    p == old(self).falling_piece,
                    color == color_of(p.shape),
                    g0 == old(self).blocks.grid(),
                    *self == (Board { blocks: self.blocks, ..*old(self) }),
                    self.blocks.wf(),
                    x < 4,
                    y <= 4,
                    forall|cx: int, cy: int|
                        0 <= cx < 10 && 0 <= cy < 32 ==> self.blocks.cell(cx, cy)
                            == Self::baked_cell(g0, p, cx, cy, x as int, y as int),
                decreases 4 - y,
            {
                if occupied_at(p.shape, p.rotation_state, x, y) {
                    let cx: i64 = p.position.x as i64 + x as i64;
                    let cy: i64 = p.position.y as i64 + y as i64;
                    if cx >= 0 && cx < 10 && cy >= 0 && cy < 32 {
                        self.blocks.set(cx as usize, cy as usize, Block::Block { color });
                    }
                }
                y += 1;
            }
            proof {
                assert forall|cx: int, cy: int| 0 <= cx < 10 && 0 <= cy < 32 implies self
                    .blocks.cell(cx, cy) == Self::baked_cell(
                    g0,
                    p,
                    cx,
                    cy,
                    x as int + 1,
                    0,
                ) by {
                    if occ(p.shape, p.rotation_state as int, cx - p.position.x, cy
                        - p.position.y) {
                        crate::tetromino::lemma_occ_in_range(
                            p.shape,
                            p.rotation_state as int,
                            cx - p.position.x,
                            cy - p.position.y,
                        );
                    }
                }
            }
            x += 1;
        }
        proof {
            PlayingField::lemma_grid_cells(self.blocks);
            PlayingField::lemma_grid_cells(old(self).blocks);
            assert forall|cx: int, cy: int| 0 <= cx < 10 && 0 <= cy < 32 implies self
                .blocks.cell(cx, cy) == bake_grid(g0, p)[cy][cx] by {
                if occ(p.shape, p.rotation_state as int, cx - p.position.x, cy
                    - p.position.y) {
                    crate::tetromino::lemma_occ_in_range(
                        p.shape,
                        p.rotation_state as int,
                        cx - p.position.x,
                        cy - p.position.y,
                    );
                }
            }
            assert(self.blocks.grid() =~~= bake_grid(g0, p));
        }
    }

    /// Scan the rows from `hi - 1` down to `lo`, removing every full one,
    /// and report how many were removed.
    fn clear_span(&mut self, lo: usize, hi: usize) -> (cleared: u32)
        requires
            old(self).wf(),
            lo <= hi <= 32,
        ensures
            final(self).wf(),
            final(self).blocks.grid() == clear_rows(
                old(self).blocks.grid(),
                lo as int,
                hi as int - 1,
            ).0,
            cleared == clear_rows(old(self).blocks.grid(), lo as int, hi as int - 1).1,
            old(self).events@.is_prefix_of(final(self).events@),
            *final(self) == (Board {
                blocks: final(self).blocks,
                events: final(self).events,
                ..*old(self)
            }),
    {
        let ghost g1 = self.blocks.grid();
        let mut cleared: u32 = 0;
        let mut yy: usize = hi;
        while yy > lo
            invariant
                old(self).wf(),
                g1 == old(self).blocks.grid(),
                lo <= yy <= hi <= 32,
                cleared <= hi - yy,
                *self == (Board {
                    blocks: self.blocks,
                    events: self.events,
                    ..*old(self)
                }),
                self.blocks.wf(),
                old(self).events@.is_prefix_of(self.events@),
                clear_rows(g1, lo as int, hi as int - 1).0 == clear_rows(
                    self.blocks.grid(),
                    lo as int,
                    yy as int - 1,
                ).0,
                clear_rows(g1, lo as int, hi as int - 1).1 == cleared + clear_rows(
                    self.blocks.grid(),
                    lo as int,
                    yy as int - 1,
                ).1,
            decreases yy,
        {
            yy -= 1;
            let ghost cur = self.blocks.grid();
            if self.blocks.is_row_full(yy) {
                proof {
                    PlayingField::lemma_grid_cells(self.blocks);
                    assert(grid_row_full(cur, yy as int));
                    assert(clear_rows(cur, lo as int, yy as int) == (
                        clear_rows(remove_row(cur, yy as int), lo as int, yy as int - 1).0,
                        clear_rows(remove_row(cur, yy as int), lo as int, yy as int - 1).1 + 1,
                    ));
                    lemma_prefix_push(
                        old(self).events@,
                        self.events@,
                        BoardEvent::LineCleared { row: yy as u32 },
                    );
                }
                self.remove_line(yy);
                cleared += 1;
            } else {
                proof {
                    PlayingField::lemma_grid_cells(self.blocks);
                    assert(!grid_row_full(cur, yy as int));
                    assert(clear_rows(cur, lo as int, yy as int) == clear_rows(
                        cur,
                        lo as int,
                        yy as int - 1,
                    ));
                }
            }
        }
        cleared
    }

    /// How one swap call relates the board before it to the board after it.
    /// A swap exchanges the falling piece's shape with the parked shape —
    /// drawing from the generator when nothing is parked yet — and marks the
    /// swap as used; on a board whose swap is already used it does nothing.
    pub open spec fn swap_post(b0: Board, b1: Board) -> bool {
        if b0.swapped {
            b1 == b0
        } else {
            &&& match b0.swap_piece {
                Some(s) => {
                    &&& b1.falling_piece == spawn_piece(s)
                    &&& b1.piece_generator == b0.piece_generator
                },
                None => {
                    &&& b1.falling_piece == spawn_piece(b0.piece_generator.queue@[0])
                    &&& b1.piece_generator.emitted@ == b0.piece_generator.emitted@.push(
                        b0.piece_generator.queue@[0],
                    )
                },
            }
            &&& b1.swap_piece == Some(b0.falling_piece.shape)
            &&& b1.swapped
            &&& b1.ghost_piece == dropped_piece(b1.falling_piece, b0.blocks)
            &&& b1.blocks == b0.blocks
            &&& b1.score == b0.score
            &&& b1.death_time == b0.death_time
            &&& b1.lines_received == b0.lines_received
            &&& b1.outgoing == b0.outgoing
            &&& b1.info == b0.info
            &&& b1.events == b0.events
            &&& b1.last_update_time == b0.last_update_time
            &&& b1.ground_time == b0.ground_time
            &&& b1.moves_on_ground == b0.moves_on_ground
            &&& b1.on_ground == b0.on_ground
        }
    }

    /// Exchange the falling piece's shape with the parked one, at most once
    /// between successive spawns.
    pub fn swap(&mut self)
        requires
            old(self).wf(),
        ensures
            final(self).wf(),
            Self::swap_post(*old(self), *final(self)),
    {
        if self.swapped {
            return ;
        }
        let new_shape = match self.swap_piece {
            Some(s) => s,
            None => self.piece_generator.next_piece(),
        };
        self.swap_piece = Some(self.falling_piece.shape);
        self.falling_piece = Tetromino::new(new_shape);
        self.swapped = true;
        self.update_ghost();
    }

    /// How a horizontal move by `dx` relates the board before it to the
    /// board after it: the piece moves unless obstructed, a blocked move
    /// bumps the camera, and the ground test and ghost piece are refreshed.
    pub open spec fn horiz_post(b0: Board, b1: Board, dx: int, now: u64) -> bool {
        let p = b0.falling_piece;
        let fail = obstructed_at(
            p.shape,
            p.rotation_state as int,
            p.position.x + dx,
            p.position.y as int,
            b0.blocks,
        );
        &&& b1.falling_piece == (if fail {
            p
        } else {
            p.at(p.rotation_state as int, p.position.x + dx, p.position.y as int)
        })
        &&& b1.events@ == (if fail {
            b0.events@.push(BoardEvent::WallBump { to_right: dx > 0 })
        } else {
            b0.events@
        })
        &&& Self::motion_frame(b0, b1)
        &&& Self::ground_post(b0, b1, now)
        &&& b1.ghost_piece == dropped_piece(b1.falling_piece, b0.blocks)
    }

    /// Move the falling piece one column to the left if nothing obstructs.
    pub fn move_left(&mut self, now: u64)
        requires
            old(self).wf(),
        ensures
            final(self).wf(),
            Self::horiz_post(*old(self), *final(self), -1, now),
    {
        let ghost p = self.falling_piece;
        if self.falling_piece.translate(BlockPos::new(-1, 0), &self.blocks) {
            self.events.push(BoardEvent::WallBump { to_right: false });
        } else {
            proof {
                lemma_unobstructed_pos(
                    p.shape,
                    p.rotation_state as int,
                    p.position.x - 1,
                    p.position.y as int,
                    self.blocks,
                );
            }
        }
        self.test_ground(now);
        self.update_ghost();
    }

    /// Move the falling piece one column to the right if nothing obstructs.
    pub fn move_right(&mut self, now: u64)
        requires
            old(self).wf(),
        ensures
            final(self).wf(),
            Self::horiz_post(*old(self), *final(self), 1, now),
    {
        let ghost p = self.falling_piece;
        if self.falling_piece.translate(BlockPos::new(1, 0), &self.blocks) {
            self.events.push(BoardEvent::WallBump { to_right: true });
        } else {
            proof {
                lemma_unobstructed_pos(
                    p.shape,
                    p.rotation_state as int,
                    p.position.x + 1,
                    p.position.y as int,
                    self.blocks,
                );
            }
        }
        self.test_ground(now);
        self.update_ghost();
    }

    /// How a rotation relates the board before it to the board after it:
    /// the piece takes its kick-resolved rotation outcome, and the ground
    /// test and ghost piece are refreshed.
    pub open spec fn rotate_post(b0: Board, b1: Board, cw: bool, now: u64) -> bool {
        &&& b1.falling_piece == b0.falling_piece.rotate_outcome(b0.blocks, cw).1
        &&& b1.events == b0.events
        &&& Self::motion_frame(b0, b1)
        &&& Self::ground_post(b0, b1, now)
        &&& b1.ghost_piece == dropped_piece(b1.falling_piece, b0.blocks)
    }

    /// Rotate the falling piece clockwise through the kick tables.
    pub fn rotate_cw(&mut self, now: u64)
        requires
            old(self).wf(),
            old(self).falling_piece.position.y <= i32::MAX - 2,
        ensures
            final(self).wf(),
            Self::rotate_post(*old(self), *final(self), true, now),
    {
        let ghost p = self.falling_piece;
        let _ = self.falling_piece.rotate_cw(&self.blocks);
        proof {
            crate::tetromino::lemma_rotate_outcome_ok(p, self.blocks, true);
        }
        self.test_ground(now);
        self.update_ghost();
    }

    /// Rotate the falling piece counter-clockwise through the kick tables.
    pub fn rotate_ccw(&mut self, now: u64)
        requires
            old(self).wf(),
            old(self).falling_piece.position.y <= i32::MAX - 2,
        ensures
            final(self).wf(),
            Self::rotate_post(*old(self), *final(self), false, now),
    {
        let ghost p = self.falling_piece;
        let _ = self.falling_piece.rotate_ccw(&self.blocks);
        proof {
            crate::tetromino::lemma_rotate_outcome_ok(p, self.blocks, false);
        }
        self.test_ground(now);
        self.update_ghost();
    }

    /// How one gravity step relates the board before it to the board after
    /// it: the piece falls one row unless obstructed; the ghost piece needs
    /// no refresh since the piece only moved along the ghost's own column.
    pub open spec fn drop_step_post(b0: Board, b1: Board, now: u64) -> bool {
        let p = b0.falling_piece;
        let fail = obstructed_at(
            p.shape,
            p.rotation_state as int,
            p.position.x as int,
            p.position.y - 1,
            b0.blocks,
        );
        &&& b1.falling_piece == (if fail {
            p
        } else {
            p.at(p.rotation_state as int, p.position.x as int, p.position.y - 1)
        })
        &&& b1.events == b0.events
        &&& b1.ghost_piece == b0.ghost_piece
        &&& Self::motion_frame(b0, b1)
        &&& Self::ground_post(b0, b1, now)
    }

    /// Pull the falling piece one row down if nothing obstructs; used for
    /// both the slow and the soft-drop gravity.
    pub fn soft_drop(&mut self, now: u64)
        requires
            old(self).wf(),
        ensures
            final(self).wf(),
            Self::drop_step_post(*old(self), *final(self), now),
    {
        let ghost p = self.falling_piece;
        if !self.falling_piece.translate(BlockPos::new(0, -1), &self.blocks) {
            proof {
                lemma_unobstructed_pos(
                    p.shape,
                    p.rotation_state as int,
                    p.position.x as int,
                    p.position.y - 1,
                    self.blocks,
                );
            }
        }
        self.test_ground(now);
    }
}

impl Board {
    /// The front pending-garbage entry, or 0 when none is queued.
    pub open spec fn pending_of(b0: Board) -> int {
        if b0.lines_received@.len() > 0 {
            b0.lines_received@[0] as int
        } else {
            0
        }
    }

    /// Garbage rows that materialize: the excess of the front pending entry
    /// over the attack.
    pub open spec fn absorbed_of(b0: Board, attack: int) -> int {
        if Self::pending_of(b0) > attack {
            Self::pending_of(b0) - attack
        } else {
            0
        }
    }

    /// Attack lines left after cancellation against the front pending entry.
    pub open spec fn sent_of(b0: Board, attack: int) -> int {
        if Self::pending_of(b0) > attack {
            0
        } else {
            attack - Self::pending_of(b0)
        }
    }

    /// Whether the falling piece, locked where it stands, is blocked from
    /// directly above — the covered test made before baking.
    pub open spec fn covered_of(b0: Board) -> bool {
        obstructed_at(
            b0.falling_piece.shape,
            b0.falling_piece.rotation_state as int,
            b0.falling_piece.position.x as int,
            b0.falling_piece.position.y + 1,
            b0.blocks,
        )
    }

    /// The field grid with the falling piece baked in.
    pub open spec fn baked_of(b0: Board) -> Seq<Seq<Block>> {
        bake_grid(b0.blocks.grid(), b0.falling_piece)
    }

    /// Whether the landing is a T-spin.
    pub open spec fn land_tspin(b0: Board) -> bool {
        is_tspin(b0.falling_piece.shape, Self::covered_of(b0))
    }

    /// Rows removed by the landing's clear scan.
    pub open spec fn land_cleared(b0: Board) -> int {
        span_cleared(Self::baked_of(b0), b0.falling_piece)
    }

    /// The field grid after baking and clearing, before garbage.
    pub open spec fn land_grid(b0: Board) -> Seq<Seq<Block>> {
        span_cleared_grid(Self::baked_of(b0), b0.falling_piece)
    }

    /// The combo counter after the landing.
    pub open spec fn land_combo(b0: Board) -> int {
        combo_after(b0.score.combo as int, Self::land_cleared(b0))
    }

    /// The back-to-back counter after the landing.
    pub open spec fn land_b2b(b0: Board) -> int {
        b2b_after(b0.score.b2b as int, Self::land_cleared(b0), Self::land_tspin(b0))
    }

    /// The attack the landing produces, before garbage cancellation.
    pub open spec fn land_attack(b0: Board) -> int {
        attack_value(
            Self::land_cleared(b0),
            Self::land_tspin(b0),
            Self::land_combo(b0),
            Self::land_b2b(b0),
        )
    }

    /// Garbage rows the landing absorbs from the pending queue.
    pub open spec fn land_absorbed(b0: Board) -> int {
        Self::absorbed_of(b0, Self::land_attack(b0))
    }

    /// Attack lines the landing forwards after cancellation.
    pub open spec fn land_sent(b0: Board) -> int {
        Self::sent_of(b0, Self::land_attack(b0))
    }

    /// The landed piece's topmost occupied row, adjusted down by the
    /// cleared rows and up by the absorbed garbage.
    pub open spec fn land_top(b0: Board) -> int {
        b0.falling_piece.position.y + mask_top(
            b0.falling_piece.shape,
            b0.falling_piece.rotation_state as int,
        ) - Self::land_cleared(b0) + Self::land_absorbed(b0)
    }

    /// Whether the landing kills the board: the adjusted top reaches the
    /// death row.
    pub open spec fn land_dead(b0: Board) -> bool {
        Self::land_top(b0) >= DEATH_ROW
    }

    /// The shape the generator hands out for the respawn.
    pub open spec fn land_next(b0: Board) -> Shape {
        b0.piece_generator.queue@[0]
    }

    /// How locking the falling piece relates the board before it to the
    /// board after it, at time `now`:
    ///
    /// whether the piece was covered is tested first; the piece is baked
    /// into the field; full rows in the piece's four-row span are removed
    /// top-down; the score handler turns the clear count, shape and covered
    /// flag into the updated counters and an attack; the attack is offset
    /// 1:1 against the front entry of the pending-garbage queue, and excess
    /// pending garbage materializes at the bottom with a single random hole
    /// column; the piece's adjusted topmost row at or above `DEATH_ROW`
    /// kills the board, which then sends nothing; otherwise any remaining
    /// attack goes to the peer queue; finally the next piece spawns and the
    /// swap becomes usable again.
    pub open spec fn land_post(b0: Board, b1: Board, now: u64) -> bool {
        &&& b1.score.combo == Self::land_combo(b0)
        &&& b1.score.b2b == Self::land_b2b(b0)
        &&& b1.lines_received@ == (if b0.lines_received@.len() > 0 {
            b0.lines_received@.drop_first()
        } else {
            b0.lines_received@
        })
        &&& b1.death_time == (if Self::land_dead(b0) {
            Some(now)
        } else {
            b0.death_time
        })
        &&& b1.outgoing@ == (if !Self::land_dead(b0) && Self::land_sent(b0) > 0 {
            b0.outgoing@.push(Self::land_sent(b0) as u32)
        } else {
            b0.outgoing@
        })
        &&& (if Self::land_absorbed(b0) > 0 {
            exists|spot: int|
                0 <= spot < 10 && b1.blocks.grid() == cheese_grid(
                    Self::land_grid(b0),
                    spot,
                    Self::land_absorbed(b0),
                )
        } else {
            b1.blocks.grid() == Self::land_grid(b0)
        })
        &&& match label_of(Self::land_cleared(b0), Self::land_tspin(b0)) {
            Some(t) => b1.info matches Some(it) && it.text@ == t && it.time == now,
            None => b1.info == b0.info,
        }
        &&& b1.falling_piece == spawn_piece(Self::land_next(b0))
        &&& b1.piece_generator.emitted@ == b0.piece_generator.emitted@.push(Self::land_next(b0))
        &&& !b1.on_ground
        &&& b1.moves_on_ground == 0
        &&& !b1.swapped
        &&& b1.swap_piece == b0.swap_piece
        &&& b1.ghost_piece == dropped_piece(b1.falling_piece, b1.blocks)
        &&& b1.last_update_time == b0.last_update_time
        &&& b1.ground_time == b0.ground_time
        &&& b0.events@.is_prefix_of(b1.events@)
    }

    /// The clearing-and-scoring phase of a landing: full rows in the
    /// piece's span are removed and the placement is scored, yielding the
    /// clear count and the raw attack.
    pub open spec fn score_phase_post(
        b0: Board,
        b1: Board,
        p: Tetromino,
        covered: bool,
        now: u64,
        cleared: u32,
        attack: u32,
    ) -> bool {
        &&& cleared == span_cleared(b0.blocks.grid(), p)
        &&& b1.blocks.grid() == span_cleared_grid(b0.blocks.grid(), p)
        &&& b1.blocks.wf()
        &&& b1.score.combo == combo_after(b0.score.combo as int, cleared as int)
        &&& b1.score.b2b == b2b_after(b0.score.b2b as int, cleared as int, is_tspin(p.shape, covered))
        &&& attack == attack_value(
            cleared as int,
            is_tspin(p.shape, covered),
            b1.score.combo as int,
            b1.score.b2b as int,
        )
        &&& match label_of(cleared as int, is_tspin(p.shape, covered)) {
            Some(t) => b1.info matches Some(it) && it.text@ == t && it.time == now,
            None => b1.info == b0.info,
        }
        &&& b0.events@.is_prefix_of(b1.events@)
        &&& b1.falling_piece == b0.falling_piece
        &&& b1.ghost_piece == b0.ghost_piece
        &&& b1.piece_generator == b0.piece_generator
        &&& b1.swap_piece == b0.swap_piece
        &&& b1.swapped == b0.swapped
        &&& b1.on_ground == b0.on_ground
        &&& b1.moves_on_ground == b0.moves_on_ground
        &&& b1.last_update_time == b0.last_update_time
        &&& b1.ground_time == b0.ground_time
        &&& b1.lines_received == b0.lines_received
        &&& b1.outgoing == b0.outgoing
        &&& b1.death_time == b0.death_time
        &&& b1.rng == b0.rng
    }

    /// Remove the full rows in the landed piece's span and score the
    /// placement.
    fn clear_and_score(&mut self, piece: Tetromino, covered: bool, now: u64) -> (r: (u32, u32))
        requires
            old(self).wf(),
            -3 <= piece.position.y <= 0x7fff_0000i32,
            old(self).score.combo <= 0xfffe_0000u32,
            old(self).score.b2b <= 0xfffe_0000u32,
        ensures
            final(self).wf(),
            Self::score_phase_post(*old(self), *final(self), piece, covered, now, r.0, r.1),
    {
        let ghost b0 = *old(self);
        let ghost g1 = self.blocks.grid();
        let py = piece.position.y;
        let lo32: i32 = if py < 0 {
            0
        } else if py > 32 {
            32
        } else {
            py
        };
        let hi_raw: i32 = py + 4;
        let hi32: i32 = if hi_raw < 0 {
            0
        } else if hi_raw > 32 {
            32
        } else {
            hi_raw
        };
        let lo: usize = lo32 as usize;
        let hi: usize = hi32 as usize;
        let cleared = self.clear_span(lo, hi);
        proof {
            lemma_clear_rows_count(g1, lo as int, hi as int - 1);
            assert(cleared == span_cleared(g1, piece));
            assert(self.blocks.grid() == span_cleared_grid(g1, piece));
        }

        if cleared > 0 {
            let ghost ev = self.events@;
            self.events.push(BoardEvent::ClearSound { combo: self.score.combo });
            proof {
                lemma_prefix_push(b0.events@, ev, BoardEvent::ClearSound { combo: self.score.combo });
            }
        }
        let analyzed = self.score.analyze(cleared, piece.shape, covered);
        let attack = analyzed.0;
        let message = analyzed.1;
        if let Some(text) = message {
            self.info = Some(InfoText { text, time: now });
        }
        let ghost ev2 = self.events@;
        self.events.push(BoardEvent::Attack { count: attack });
        proof {
            lemma_prefix_push(b0.events@, ev2, BoardEvent::Attack { count: attack });
        }
        (cleared, attack)
    }

    /// The garbage-exchange-and-death phase of a landing, where `top_base`
    /// is the landed piece's topmost occupied row before adjustment: the
    /// attack is offset against the front pending-garbage entry, excess
    /// garbage materializes at the bottom with one random hole column, and
    /// the adjusted top decides death; a dead board sends nothing.
    pub open spec fn garbage_phase_post(
        b0: Board,
        b1: Board,
        top_base: int,
        cleared: u32,
        attack: u32,
        now: u64,
    ) -> bool {
        &&& b1.lines_received@ == (if b0.lines_received@.len() > 0 {
            b0.lines_received@.drop_first()
        } else {
            b0.lines_received@
        })
        &&& b1.death_time == (if Self::dead_of(b0, top_base, cleared, attack as int) {
            Some(now)
        } else {
            b0.death_time
        })
        &&& b1.outgoing@ == (if !Self::dead_of(b0, top_base, cleared, attack as int)
            && Self::sent_of(b0, attack as int) > 0 {
            b0.outgoing@.push(Self::sent_of(b0, attack as int) as u32)
        } else {
            b0.outgoing@
        })
        &&& (if Self::absorbed_of(b0, attack as int) > 0 {
            exists|spot: int|
                0 <= spot < 10 && b1.blocks.grid() == cheese_grid(
                    b0.blocks.grid(),
                    spot,
                    Self::absorbed_of(b0, attack as int),
                )
        } else {
            b1.blocks.grid() == b0.blocks.grid()
        })
        &&& b1.blocks.wf()
        &&& b0.events@.is_prefix_of(b1.events@)
        &&& b1.falling_piece == b0.falling_piece
        &&& b1.ghost_piece == b0.ghost_piece
        &&& b1.piece_generator == b0.piece_generator
        &&& b1.swap_piece == b0.swap_piece
        &&& b1.swapped == b0.swapped
        &&& b1.on_ground == b0.on_ground
        &&& b1.moves_on_ground == b0.moves_on_ground
        &&& b1.last_update_time == b0.last_update_time
        &&& b1.ground_time == b0.ground_time
        &&& b1.score == b0.score
        &&& b1.info == b0.info
    }

    /// Whether the placement with topmost row `top_base` kills the board
    /// after the clear and garbage adjustments.
    pub open spec fn dead_of(b0: Board, top_base: int, cleared: u32, attack: int) -> bool {
        top_base - cleared + Self::absorbed_of(b0, attack) >= DEATH_ROW
    }

    /// Offset the attack against pending garbage, materialize the excess,
    /// and decide death from the adjusted piece top.
    fn exchange_garbage(&mut self, top_base: i64, cleared: u32, attack: u32, now: u64)
        requires
            old(self).wf(),
            -0x8000_0000i64 <= top_base <= 0x7fff_ffffi64,
        ensures
            final(self).wf(),
            Self::garbage_phase_post(
                *old(self),
                *final(self),
                top_base as int,
                cleared,
                attack,
                now,
            ),
    {
        let ghost b0 = *old(self);
        let mut lines_to_send = attack;
        let mut absorbed: u32 = 0;
        if self.lines_received.len() > 0 {
            let pending = self.lines_received.remove(0);
            if pending > lines_to_send {
                absorbed = pending - lines_to_send;
                lines_to_send = 0;
            } else {
                lines_to_send = lines_to_send - pending;
            }
            proof {
                assert(self.lines_received@ =~= b0.lines_received@.drop_first());
            }
        }

        let ghost g2 = self.blocks.grid();
        let ghost pre_cheese = *self;
        if absorbed > 0 {
            let spot = (rng_next_u32(&mut self.rng) as usize) % 10;
            proof {
                assert(cheese_grid(g2, spot as int, 0) =~~= g2);
            }
            let mut i: u32 = 0;
            while i < absorbed
                invariant
                    spot < 10,
                    i <= absorbed,
                    self.blocks.wf(),
                    pre_cheese.blocks.wf(),
                    g2 == pre_cheese.blocks.grid(),
                    self.blocks.grid() == cheese_grid(g2, spot as int, i as int),
                    *self == (Board { blocks: self.blocks, rng: self.rng, ..pre_cheese }),
                decreases absorbed - i,
            {
                let ghost prev_field = self.blocks;
                let ghost before = self.blocks.grid();
                self.blocks.insert_garbage_row(spot);
                proof {
                    PlayingField::lemma_grid_cells(self.blocks);
                    PlayingField::lemma_grid_cells(prev_field);
                    PlayingField::lemma_grid_cells(pre_cheese.blocks);
                    assert(self.blocks.grid() =~~= cheese_grid(g2, spot as int, i as int + 1)) by {
                        assert forall|y: int, x: int| 0 <= y < 32 && 0 <= x < 10 implies #[trigger]
                            self.blocks.grid()[y][x] == cheese_grid(
                            g2,
                            spot as int,
                            i as int + 1,
                        )[y][x] by {
                            if y >= 1 {
                                assert(self.blocks.cell(x, y) == before[y - 1][x]);
                            }
                        }
                    }
                }
                i += 1;
            }
            let ghost ev3 = self.events@;
            self.events.push(BoardEvent::GarbageAbsorbed { count: absorbed });
            proof {
                lemma_prefix_push(b0.events@, ev3, BoardEvent::GarbageAbsorbed { count: absorbed });
            }
        }

        let top: i64 = top_base - cleared as i64 + absorbed as i64;
        if top >= DEATH_ROW as i64 {
            self.death_time = Some(now);
        } else if lines_to_send > 0 {
            self.outgoing.push(lines_to_send);
        }
        proof {
            assert(Self::absorbed_of(b0, attack as int) == absorbed as int);
            assert(b0.events@.is_prefix_of(self.events@));
        }
    }

    /// Lock the falling piece into the field at its current position and
    /// run the whole landing step.
    pub fn land_piece(&mut self, now: u64)
        requires
            old(self).wf(),
            old(self).score.combo <= 0xfffe_0000u32,
            old(self).score.b2b <= 0xfffe_0000u32,
            old(self).falling_piece.position.y <= 0x7fff_0000i32,
        ensures
            final(self).wf(),
            Self::land_post(*old(self), *final(self), now),
    {
        let ghost b0 = *old(self);
        let p = self.falling_piece;
        let covered = self.test_translation(BlockPos::new(0, 1));
        let ghost ev0 = self.events@;
        self.events.push(BoardEvent::PieceLanded { piece: p });
        proof {
            assert(ev0.is_prefix_of(self.events@)) by {
                assert(self.events@.subrange(0, ev0.len() as int) =~= ev0);
            }
        }
        self.bake_piece();
        let ghost b_baked = *self;
        let scored = self.clear_and_score(p, covered, now);
        let cleared = scored.0;
        let attack = scored.1;
        let ghost b_scored = *self;
        proof {
            assert(covered == Self::covered_of(b0));
            assert(b_baked.blocks.grid() == Self::baked_of(b0));
            assert(cleared as int == Self::land_cleared(b0));
            assert(b_scored.blocks.grid() == Self::land_grid(b0));
            assert(b_scored.score.combo as int == Self::land_combo(b0));
            assert(b_scored.score.b2b as int == Self::land_b2b(b0));
            assert(attack as int == Self::land_attack(b0));
            lemma_prefix_trans(b0.events@, b_baked.events@, b_scored.events@);
        }
        let top_base: i64 = p.position.y as i64 + mask_top_of(p.shape, p.rotation_state) as i64;
        self.exchange_garbage(top_base, cleared, attack, now);
        let ghost b_garbage = *self;
        proof {
            assert(Self::pending_of(b_scored) == Self::pending_of(b0));
            assert(Self::land_absorbed(b0) == Self::absorbed_of(b_scored, attack as int));
            assert(Self::land_sent(b0) == Self::sent_of(b_scored, attack as int));
            assert(Self::land_dead(b0) == Self::dead_of(
                b_scored,
                top_base as int,
                cleared,
                attack as int,
            ));
            lemma_prefix_trans(b0.events@, b_scored.events@, b_garbage.events@);
        }

        let next = self.piece_generator.next_piece();
        self.falling_piece = Tetromino::new(next);
        self.on_ground = false;
        self.moves_on_ground = 0;
        self.swapped = false;
        self.update_ghost();
        proof {
            assert(self.events@ == b_garbage.events@);
            assert(b0.events@.is_prefix_of(self.events@));
            assert(next == Self::land_next(b0));
            assert(Self::land_post(b0, *self, now));
        }
    }

    /// How a hard drop relates the board before it to the board after it:
    /// the piece falls to its lowest legal position and the whole landing
    /// step runs there at once.
    pub open spec fn hard_drop_post(b0: Board, b1: Board, now: u64) -> bool {
        &&& Self::land_post(
            (Board {
                falling_piece: dropped_piece(b0.falling_piece, b0.blocks),
                ghost_piece: dropped_piece(b0.falling_piece, b0.blocks),
                ..b0
            }),
            b1,
            now,
        )
        &&& b1.events@.len() > 0
        &&& b1.events@.last() == (BoardEvent::HardDropped {
            piece: dropped_piece(b0.falling_piece, b0.blocks),
            from_y: b0.falling_piece.position.y,
        })
    }

    /// Drop the falling piece to its lowest legal position and lock it
    /// there at once.
    pub fn hard_drop(&mut self, now: u64)
        requires
            old(self).wf(),
            old(self).score.combo <= 0xfffe_0000u32,
            old(self).score.b2b <= 0xfffe_0000u32,
            old(self).falling_piece.position.y <= 0x7fff_0000i32,
        ensures
            final(self).wf(),
            Self::hard_drop_post(*old(self), *final(self), now),
    {
        let ghost b0 = *old(self);
        let ghost dropped = dropped_piece(b0.falling_piece, b0.blocks);
        let from_y = self.falling_piece.position.y;
        self.update_ghost();
        self.falling_piece = self.ghost_piece;
        proof {
            lemma_drop_y_range(
                b0.falling_piece.shape,
                b0.falling_piece.rotation_state as int,
                b0.falling_piece.position.x as int,
                b0.falling_piece.position.y as int,
                b0.blocks,
            );
            assert(*self == (Board { falling_piece: dropped, ghost_piece: dropped, ..b0 }));
        }
        let dropped_piece_now = self.falling_piece;
        self.land_piece(now);
        let ghost after_land = *self;
        self.events.push(
            BoardEvent::HardDropped { piece: dropped_piece_now, from_y },
        );
        proof {
            let b_mid = (Board { falling_piece: dropped, ghost_piece: dropped, ..b0 });
            lemma_prefix_push(
                b_mid.events@,
                after_land.events@,
                BoardEvent::HardDropped { piece: dropped, from_y },
            );
            assert(*self == (Board { events: self.events, ..after_land }));
            assert(Self::land_post(b_mid, *self, now));
        }
    }
}

impl Board {
    /// One fired key action, dispatched to its motion relation. Soft drop
    /// fires no discrete action: it is read as a level by `update`.
    pub open spec fn action_post(b0: Board, b1: Board, key: Key, now: u64) -> bool {
        match key {
            Key::Left => Self::horiz_post(b0, b1, -1, now),
            Key::Right => Self::horiz_post(b0, b1, 1, now),
            Key::RotateCW => Self::rotate_post(b0, b1, true, now),
            Key::RotateCCW => Self::rotate_post(b0, b1, false, now),
            Key::HardDrop => Self::hard_drop_post(b0, b1, now),
            Key::Swap => Self::swap_post(b0, b1),
            Key::SoftDrop => b1 == b0,
        }
    }

    /// The board just before a fired action runs: a piece resting on the
    /// ground has its move counter charged.
    pub open spec fn pre_move(b0: Board) -> Board {
        if b0.on_ground {
            Board { moves_on_ground: (b0.moves_on_ground + 1) as u32, ..b0 }
        } else {
            b0
        }
    }

    /// One held key processed at time `now`: if its debounce step fires, the
    /// move counter is charged, the action runs, and the lock-delay clock
    /// restarts; otherwise the board is untouched.
    pub open spec fn input_step_post(b0: Board, b1: Board, k: KeyInput, now: u64) -> bool {
        if timing_step(k.timing, k.key, now).0 {
            exists|mid: Board|
                Self::action_post(Self::pre_move(b0), mid, k.key, now) && b1 == (Board {
                    ground_time: now,
                    ..mid
                })
        } else {
            b1 == b0
        }
    }

    /// The held keys processed in order: some board reachable by processing
    /// all but the last key is carried to `b1` by the last key's step.
    pub open spec fn inputs_post(b0: Board, b1: Board, ks: Seq<KeyInput>, now: u64) -> bool
        decreases ks.len(),
    {
        if ks.len() == 0 {
            b1 == b0
        } else {
            exists|mid: Board|
                Self::inputs_post(b0, mid, ks.drop_last(), now) && Self::input_step_post(
                    mid,
                    b1,
                    ks.last(),
                    now,
                )
        }
    }

    /// Whether any held key reads as the soft-drop level.
    pub open spec fn soft_held(ks: Seq<KeyInput>) -> bool {
        exists|i: int| 0 <= i < ks.len() && soft_drop_held(#[trigger] ks[i].timing, ks[i].key)
    }

    /// Process every held key in order: debounce it, and run its action when
    /// it fires. Returns whether soft drop is held.
    pub fn handle_input(&mut self, keys: &mut Vec<KeyInput>, now: u64) -> (soft_drop: bool)
        requires
            old(self).wf(),
            old(keys)@.len() <= 4096,
            old(self).falling_piece.position.y <= 0x7000_0000i32,
            old(self).score.combo <= 0xfffd_0000u32,
            old(self).score.b2b <= 0xfffd_0000u32,
            old(self).moves_on_ground <= 0xfffd_0000u32,
        ensures
            final(self).wf(),
            final(keys)@.len() == old(keys)@.len(),
            forall|i: int|
                0 <= i < old(keys)@.len() ==> final(keys)@[i] == (KeyInput {
                    key: old(keys)@[i].key,
                    timing: timing_step(old(keys)@[i].timing, old(keys)@[i].key, now).1,
                }),
            Self::inputs_post(*old(self), *final(self), old(keys)@, now),
            soft_drop == Self::soft_held(old(keys)@),
            final(self).falling_piece.position.y <= 0x7000_0000 + 2 * old(keys)@.len(),
            final(self).score.combo <= 0xfffd_0000 + old(keys)@.len(),
            final(self).score.b2b <= 0xfffd_0000 + old(keys)@.len(),
    {
        let ghost b0 = *old(self);
        let ghost ks0 = old(keys)@;
        let mut soft: bool = false;
        let mut idx: usize = 0;
        while idx < keys.len()
            invariant
                self.wf(),
                keys@.len() == ks0.len(),
                ks0.len() <= 4096,
                idx <= ks0.len(),
                b0.falling_piece.position.y <= 0x7000_0000i32,
                b0.score.combo <= 0xfffd_0000u32,
                b0.score.b2b <= 0xfffd_0000u32,
                b0.moves_on_ground <= 0xfffd_0000u32,
                self.falling_piece.position.y <= 0x7000_0000 + 2 * idx,
                self.score.combo <= 0xfffd_0000 + idx,
                self.score.b2b <= 0xfffd_0000 + idx,
                self.moves_on_ground <= 0xfffd_0000 + idx,
                forall|i: int|
                    0 <= i < idx ==> keys@[i] == (KeyInput {
                        key: ks0[i].key,
                        timing: timing_step(ks0[i].timing, ks0[i].key, now).1,
                    }),
                forall|i: int| idx <= i < ks0.len() ==> keys@[i] == ks0[i],
                Self::inputs_post(b0, *self, ks0.take(idx as int), now),
                soft == exists|i: int|
                    0 <= i < idx && soft_drop_held(#[trigger] ks0[i].timing, ks0[i].key),
            decreases keys@.len() - idx,
        {
            let ghost b_before = *self;
            let k = keys[idx];
            let stepped = step_timing(k.timing, k.key, now);
            let slot = &mut keys[idx];
            *slot = KeyInput { key: k.key, timing: stepped.1 };
            if let KeyTiming::Idle = k.timing {
                if let Key::SoftDrop = k.key {
                    soft = true;
                }
            }
            if stepped.0 {
                if self.on_ground {
                    self.moves_on_ground = self.moves_on_ground + 1;
                }
                let ghost b_pre = *self;
                proof {
                    assert(b_pre == Self::pre_move(b_before));
                }
                match k.key {
                    Key::Left => self.move_left(now),
                    Key::Right => self.move_right(now),
                    Key::RotateCW => {
                        proof {
                            crate::tetromino::lemma_rotate_outcome_ok(
                                b_pre.falling_piece,
                                b_pre.blocks,
                                true,
                            );
                        }
                        self.rotate_cw(now);
                    },
                    Key::RotateCCW => {
                        proof {
                            crate::tetromino::lemma_rotate_outcome_ok(
                                b_pre.falling_piece,
                                b_pre.blocks,
                                false,
                            );
                        }
                        self.rotate_ccw(now);
                    },
                    Key::HardDrop => self.hard_drop(now),
                    Key::Swap => self.swap(),
                    Key::SoftDrop => {},
                }
                let ghost b_mid = *self;
                proof {
                    assert(Self::action_post(b_pre, b_mid, k.key, now));
                }
                self.ground_time = now;
                proof {
                    assert(*self == (Board { ground_time: now, ..b_mid }));
                    assert(Self::input_step_post(b_before, *self, k, now));
                }
            } else {
                proof {
                    assert(Self::input_step_post(b_before, *self, k, now));
                }
            }
            proof {
                assert(ks0.take(idx as int + 1).drop_last() =~= ks0.take(idx as int));
                assert(ks0.take(idx as int + 1).last() == ks0[idx as int]);
                assert(Self::inputs_post(b0, *self, ks0.take(idx as int + 1), now));
            }
            idx += 1;
        }
        proof {
            assert(ks0.take(ks0.len() as int) =~= ks0);
        }
        soft
    }

    /// The per-tick gravity step: while soft drop is held the piece falls at
    /// the fast rate (with a camera nudge each tick it is held), otherwise
    /// at the slow rate; nothing moves before the interval elapses.
    pub open spec fn gravity_post(b0: Board, b1: Board, soft: bool, now: u64) -> bool {
        if soft {
            if now >= b0.last_update_time + SOFT_DROP_MS {
                exists|mid: Board, mid2: Board|
                    mid.events@ == b0.events@.push(BoardEvent::SoftDropStep) && mid == (Board {
                        events: mid.events,
                        ..b0
                    }) && Self::drop_step_post(mid, mid2, now) && b1 == (Board {
                        last_update_time: now,
                        ..mid2
                    })
            } else {
                b1.events@ == b0.events@.push(BoardEvent::SoftDropStep) && b1 == (Board {
                    events: b1.events,
                    ..b0
                })
            }
        } else {
            if now >= b0.last_update_time + GRAVITY_MS {
                exists|mid2: Board|
                    Self::drop_step_post(b0, mid2, now) && b1 == (Board {
                        last_update_time: now,
                        ..mid2
                    })
            } else {
                b1 == b0
            }
        }
    }

    /// The per-tick lock step: a piece that has rested on the ground past
    /// the lock delay, or made too many moves while resting, locks in place.
    pub open spec fn lock_post(b0: Board, b1: Board, now: u64) -> bool {
        if b0.on_ground && (now > b0.ground_time + LOCK_DELAY_MS || b0.moves_on_ground
            > MAX_MOVES_ON_GROUND) {
            Self::land_post(b0, b1, now)
        } else {
            b1 == b0
        }
    }

    /// The board with an expired info banner taken down.
    pub open spec fn expire_info(b0: Board, now: u64) -> Board {
        match b0.info {
            Some(it) => if now > it.time + INFO_TEXT_MS {
                Board { info: None, ..b0 }
            } else {
                b0
            },
            None => b0,
        }
    }

    /// One simulation tick at time `now`: the info banner decays; a dead
    /// board does nothing else; a live board processes the held keys, then
    /// gravity, then the lock check.
    pub open spec fn update_post(b0: Board, b1: Board, ks: Seq<KeyInput>, now: u64) -> bool {
        if b0.death_time is Some {
            b1 == Self::expire_info(b0, now)
        } else {
            exists|b_in: Board, b_g: Board|
                Self::inputs_post(Self::expire_info(b0, now), b_in, ks, now) && Self::gravity_post(
                    b_in,
                    b_g,
                    Self::soft_held(ks),
                    now,
                ) && Self::lock_post(b_g, b1, now)
        }
    }

    /// Advance the board by one frame: expire the banner, and — unless the
    /// board is dead — process input, apply gravity, and lock a piece whose
    /// rest timed out. The caller samples `now` from a monotonic clock once
    /// per tick.
    pub fn update(&mut self, keys: &mut Vec<KeyInput>, now: u64)
        requires
            old(self).wf(),
            old(keys)@.len() <= 4096,
            old(self).falling_piece.position.y <= 0x7000_0000i32,
            old(self).score.combo <= 0xfffd_0000u32,
            old(self).score.b2b <= 0xfffd_0000u32,
            old(self).moves_on_ground <= 0xfffd_0000u32,
        ensures
            final(self).wf(),
            Self::update_post(*old(self), *final(self), old(keys)@, now),
            final(keys)@.len() == old(keys)@.len(),
            old(self).death_time is Some ==> *final(keys) == *old(keys),
            old(self).death_time is None ==> forall|i: int|
                0 <= i < old(keys)@.len() ==> final(keys)@[i] == (KeyInput {
                    key: old(keys)@[i].key,
                    timing: timing_step(old(keys)@[i].timing, old(keys)@[i].key, now).1,
                }),
    {
        let ghost b0 = *old(self);
        let expired = match &self.info {
            Some(it) => now >= it.time && now - it.time > INFO_TEXT_MS,
            None => false,
        };
        if expired {
            self.info = None;
        }
        proof {
            assert(*self == Self::expire_info(b0, now));
        }
        if self.death_time.is_some() {
            return ;
        }
        let ghost b_e = *self;

        let soft = self.handle_input(keys, now);
        let ghost b_in = *self;

        let interval: u64 = if soft {
            self.events.push(BoardEvent::SoftDropStep);
            SOFT_DROP_MS
        } else {
            GRAVITY_MS
        };
        let ghost b_soft = *self;
        if now >= self.last_update_time && now - self.last_update_time >= interval {
            self.soft_drop(now);
            self.last_update_time = now;
        }
        let ghost b_g = *self;
        proof {
            assert(Self::gravity_post(b_in, b_g, soft, now));
        }

        if (now >= self.ground_time && now - self.ground_time > LOCK_DELAY_MS
            || self.moves_on_ground > MAX_MOVES_ON_GROUND) && self.on_ground {
            self.land_piece(now);
        }
        proof {
            assert(Self::lock_post(b_g, *self, now));
            assert(Self::update_post(b0, *self, old(keys)@, now));
        }
    }
}

/// Swap is usable once per spawn: whatever board a first swap call leaves
/// behind, a second swap call before the next spawn leaves it — and in
/// particular the falling piece — entirely unchanged.
pub proof fn lemma_swap_once_per_spawn(b0: Board, b1: Board, b2: Board)
    requires
        Board::swap_post(b0, b1),
        Board::swap_post(b1, b2),
    ensures
        b2 == b1,
{
}

} // verus!
