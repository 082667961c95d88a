use rand::rngs::SmallRng;
use rand::SeedableRng;
use tetris_core::block::{Block, BlockColor};
use tetris_core::board::Board;
use tetris_core::effects::BoardEvent;
use tetris_core::tetromino::{Shape, Tetromino};
use tetris_core::util::BlockPos;

fn new_board(seed: u64) -> Board {
    Board::new(
        SmallRng::seed_from_u64(seed),
        SmallRng::seed_from_u64(seed.wrapping_add(1000)),
        0,
    )
}

fn gray() -> Block {
    Block::Block { color: BlockColor::Gray }
}

fn filled(b: &Board, x: usize, y: usize) -> bool {
    !matches!(b.blocks.rows[y][x], Block::Air)
}

/// Fill rows `0..rows` completely except for the column `hole`.
fn fill_bottom_rows(board: &mut Board, rows: usize, hole: usize) {
    for y in 0..rows {
        for x in 0..10 {
            if x != hole {
                board.blocks.set(x, y, gray());
            }
        }
    }
}

/// A vertical I piece whose blocks sit in absolute column `col`, rows
/// `y..y + 4`.
fn vertical_i(col: i32, y: i32) -> Tetromino {
    Tetromino {
        position: BlockPos::new(col - 2, y),
        shape: Shape::I,
        rotation_state: 1,
    }
}

#[test]
fn field_always_has_32_rows() {
    let mut board = new_board(1);
    assert_eq!(board.blocks.rows.len(), 32);
    for x in 0..10 {
        board.blocks.set(x, 5, gray());
    }
    board.remove_line(5);
    assert_eq!(board.blocks.rows.len(), 32);
    board.receive_garbage(4);
    board.falling_piece = vertical_i(4, 0);
    board.land_piece(10);
    assert_eq!(board.blocks.rows.len(), 32);
}

#[test]
fn remove_line_shifts_rows_down_and_opens_an_empty_top_row() {
    let mut board = new_board(2);
    for x in 0..10 {
        board.blocks.set(x, 5, gray());
    }
    board.blocks.set(0, 6, gray());
    board.remove_line(5);
    // Row 5 now holds what was row 6.
    assert!(filled(&board, 0, 5));
    assert!(!filled(&board, 1, 5));
    // The top row is fresh air.
    for x in 0..10 {
        assert!(!filled(&board, x, 31));
    }
    assert!(board
        .events
        .iter()
        .any(|e| matches!(*e, BoardEvent::LineCleared { row: 5 })));
}

#[test]
fn landing_clears_full_rows_and_scores_them() {
    let mut board = new_board(3);
    // Rows 0..4 full except column 4; a vertical I in that column makes a
    // tetris.
    fill_bottom_rows(&mut board, 4, 4);
    board.falling_piece = vertical_i(4, 0);
    board.land_piece(50);
    // First tetris sends 3 + combo 1 + bonus 0 = 4 lines.
    assert_eq!(board.outgoing, vec![4]);
    assert_eq!(board.score.combo, 1);
    assert_eq!(board.score.b2b, 1);
    // The stack is gone.
    for y in 0..4 {
        for x in 0..10 {
            assert!(!filled(&board, x, y));
        }
    }
    assert!(board.death_time.is_none());
    // The banner and the sound fired.
    assert_eq!(board.info.as_ref().map(|i| i.text.as_str()), Some("TETRIS"));
    assert!(board
        .events
        .iter()
        .any(|e| matches!(*e, BoardEvent::ClearSound { .. })));
    assert!(board
        .events
        .iter()
        .any(|e| matches!(*e, BoardEvent::Attack { count: 4 })));
}

#[test]
fn attack_exceeding_pending_garbage_forwards_the_difference() {
    let mut board = new_board(4);
    // Attack 5: a tetris with one clear already in the combo.
    board.score.combo = 1;
    fill_bottom_rows(&mut board, 4, 4);
    board.falling_piece = vertical_i(4, 0);
    board.receive_garbage(3);
    board.land_piece(60);
    // Attack 3 + combo 2 + bonus 0 = 5; pending 3 cancels to 2.
    assert_eq!(board.outgoing, vec![2]);
    assert!(board.lines_received.is_empty());
    // Nothing was absorbed: the bottom row is clear.
    for x in 0..10 {
        assert!(!filled(&board, x, 0));
    }
    assert!(board.death_time.is_none());
}

#[test]
fn pending_garbage_exceeding_the_attack_materializes_the_excess() {
    let mut board = new_board(5);
    // Attack 2: an ordinary triple. Rows 0..3 minus the hole column, with
    // the hole's row 3 cell left open so only three rows fill.
    fill_bottom_rows(&mut board, 3, 4);
    board.falling_piece = vertical_i(4, 0);
    board.receive_garbage(5);
    board.land_piece(70);
    // Attack (3 - 1) + 0 + 0 = 2; pending 5 absorbs it and leaves 3 rows.
    assert_eq!(board.outgoing, Vec::<u32>::new());
    assert!(board.lines_received.is_empty());
    // Three garbage rows, each with exactly one hole, sit at the bottom.
    for y in 0..3 {
        let holes = (0..10).filter(|&x| !filled(&board, x, y)).count();
        assert_eq!(holes, 1);
    }
    assert!(board
        .events
        .iter()
        .any(|e| matches!(*e, BoardEvent::GarbageAbsorbed { count: 3 })));
    // The leftover I block (row 3 of the stack) moved up with the garbage.
    assert!(board.death_time.is_none());
}

#[test]
fn piece_locked_at_the_death_row_kills_the_board() {
    let mut board = new_board(6);
    // O blocks occupy mask rows 2..4: top row is position.y + 3.
    board.falling_piece = Tetromino {
        position: BlockPos::new(3, 17),
        shape: Shape::O,
        rotation_state: 0,
    };
    board.land_piece(123);
    assert_eq!(board.death_time, Some(123));
}

#[test]
fn piece_locked_below_the_death_row_does_not_kill() {
    let mut board = new_board(7);
    board.falling_piece = Tetromino {
        position: BlockPos::new(3, 16),
        shape: Shape::O,
        rotation_state: 0,
    };
    board.land_piece(123);
    assert!(board.death_time.is_none());
}

#[test]
fn dead_board_sends_no_garbage() {
    let mut board = new_board(8);
    // A tetris whose piece top stays at row 20 after clearing: blocks in
    // rows 21..25, cleared rows none — craft instead a high lock with full
    // rows below so the attack exists but death wins.
    fill_bottom_rows(&mut board, 4, 4);
    for y in 0..4 {
        board.blocks.set(4, y, gray());
    }
    // Lock an O piece high up; no clears, but pending garbage pushes it
    // over the death row.
    board.falling_piece = Tetromino {
        position: BlockPos::new(3, 15),
        shape: Shape::O,
        rotation_state: 0,
    };
    board.receive_garbage(2);
    board.land_piece(99);
    // Top 18 + 2 absorbed = 20: dead, and the absorbed rows are in.
    assert_eq!(board.death_time, Some(99));
    assert_eq!(board.outgoing, Vec::<u32>::new());
}

#[test]
fn swap_works_once_per_spawn() {
    let mut board = new_board(9);
    let first = board.falling_piece.shape;
    let upcoming = board.piece_generator.queue[0];
    board.swap();
    assert_eq!(board.swap_piece, Some(first));
    assert_eq!(board.falling_piece.shape, upcoming);
    assert!(board.swapped);

    let after_first = board.falling_piece;
    let parked = board.swap_piece;
    board.swap();
    assert_eq!(board.falling_piece, after_first);
    assert_eq!(board.swap_piece, parked);
}

#[test]
fn swap_becomes_usable_again_after_a_lock() {
    let mut board = new_board(10);
    board.swap();
    assert!(board.swapped);
    board.hard_drop(10);
    assert!(!board.swapped);
    let held = board.swap_piece;
    let falling = board.falling_piece.shape;
    board.swap();
    assert_eq!(board.swap_piece, Some(falling));
    assert_eq!(Some(board.falling_piece.shape), held);
}

#[test]
fn hard_drop_locks_at_the_lowest_position() {
    let mut board = new_board(11);
    board.falling_piece = Tetromino {
        position: BlockPos::new(3, 10),
        shape: Shape::O,
        rotation_state: 0,
    };
    board.hard_drop(5);
    // O blocks land in rows 0 and 1, columns 4 and 5.
    for y in 0..2 {
        assert!(filled(&board, 4, y));
        assert!(filled(&board, 5, y));
    }
    assert!(matches!(
        board.events.last(),
        Some(BoardEvent::HardDropped { .. })
    ));
    // A fresh piece spawned.
    assert_eq!(board.falling_piece.position, BlockPos::new(3, 20));
}

#[test]
fn ghost_piece_projects_to_the_floor() {
    let board = new_board(12);
    assert_eq!(board.ghost_piece.shape, board.falling_piece.shape);
    assert_eq!(board.ghost_piece.position.x, board.falling_piece.position.x);
    // On an empty field the ghost rests with its lowest block on row 0.
    let mut probe = board.ghost_piece;
    assert!(probe.translate(BlockPos::new(0, -1), &board.blocks));
}

#[test]
fn garbage_queue_appends_and_drains() {
    let mut board = new_board(13);
    board.receive_garbage(2);
    board.receive_garbage(7);
    assert_eq!(board.lines_received, vec![2, 7]);
    board.outgoing.push(3);
    let drained = board.drain_outgoing();
    assert_eq!(drained, vec![3]);
    assert!(board.outgoing.is_empty());
}
