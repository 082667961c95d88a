use rand::rngs::SmallRng;
use rand::SeedableRng;
use tetris_core::board::Board;
use tetris_core::effects::{BoardEvent, InfoText};
use tetris_core::keys::{Key, KeyInput, KeyTiming};
use tetris_core::tetromino::{Shape, Tetromino};
use tetris_core::util::BlockPos;

fn new_board(seed: u64) -> Board {
    Board::new(
        SmallRng::seed_from_u64(seed),
        SmallRng::seed_from_u64(seed.wrapping_add(1000)),
        0,
    )
}

fn held(key: Key) -> Vec<KeyInput> {
    vec![KeyInput { key, timing: KeyTiming::Idle }]
}

#[test]
fn gravity_pulls_one_row_after_the_interval() {
    let mut board = new_board(20);
    let y0 = board.falling_piece.position.y;
    let mut keys: Vec<KeyInput> = Vec::new();
    board.update(&mut keys, 999);
    assert_eq!(board.falling_piece.position.y, y0);
    board.update(&mut keys, 1000);
    assert_eq!(board.falling_piece.position.y, y0 - 1);
    // The gravity clock restarted.
    board.update(&mut keys, 1500);
    assert_eq!(board.falling_piece.position.y, y0 - 1);
    board.update(&mut keys, 2000);
    assert_eq!(board.falling_piece.position.y, y0 - 2);
}

#[test]
fn soft_drop_uses_the_fast_interval() {
    let mut board = new_board(21);
    let y0 = board.falling_piece.position.y;
    let mut keys = held(Key::SoftDrop);
    board.update(&mut keys, 20);
    assert_eq!(board.falling_piece.position.y, y0 - 1);
    assert!(board
        .events
        .iter()
        .any(|e| matches!(*e, BoardEvent::SoftDropStep)));
    // Soft drop is level-triggered: the key stays armed.
    assert_eq!(keys[0].timing, KeyTiming::Idle);
    board.update(&mut keys, 40);
    assert_eq!(board.falling_piece.position.y, y0 - 2);
}

#[test]
fn horizontal_keys_fire_once_then_repeat_after_the_delay() {
    let mut board = new_board(22);
    let x0 = board.falling_piece.position.x;
    let mut keys = held(Key::Left);
    board.update(&mut keys, 10);
    assert_eq!(board.falling_piece.position.x, x0 - 1);
    assert_eq!(keys[0].timing, KeyTiming::Delayed(10));

    // Within the initial delay nothing fires.
    board.update(&mut keys, 100);
    assert_eq!(board.falling_piece.position.x, x0 - 1);

    // After 150 ms the key repeats and keeps repeating every 20 ms.
    board.update(&mut keys, 160);
    assert_eq!(board.falling_piece.position.x, x0 - 2);
    assert_eq!(keys[0].timing, KeyTiming::Repeat(160));
    board.update(&mut keys, 181);
    assert_eq!(board.falling_piece.position.x, x0 - 3);
}

#[test]
fn rotation_fires_exactly_once_per_press() {
    let mut board = new_board(23);
    let r0 = board.falling_piece.rotation_state;
    let mut keys = held(Key::RotateCW);
    board.update(&mut keys, 10);
    assert_eq!(board.falling_piece.rotation_state, (r0 + 1) % 4);
    assert_eq!(keys[0].timing, KeyTiming::Single);
    board.update(&mut keys, 400);
    assert_eq!(board.falling_piece.rotation_state, (r0 + 1) % 4);
}

#[test]
fn resting_piece_locks_after_the_lock_delay() {
    let mut board = new_board(24);
    // Put the piece on the floor and mark it grounded since time 0.
    let dropped = {
        let mut p = board.falling_piece;
        while !p.translate(BlockPos::new(0, -1), &board.blocks) {}
        p
    };
    board.falling_piece = dropped;
    board.on_ground = true;
    board.ground_time = 0;
    board.last_update_time = 400;

    let mut keys: Vec<KeyInput> = Vec::new();
    board.update(&mut keys, 450);
    // Lock delay (500 ms) not yet over.
    assert!(board.events.iter().all(|e| !matches!(*e, BoardEvent::PieceLanded { .. })));
    board.update(&mut keys, 501);
    assert!(board.events.iter().any(|e| matches!(*e, BoardEvent::PieceLanded { .. })));
    // A fresh piece spawned.
    assert_eq!(board.falling_piece.position, BlockPos::new(3, 20));
}

#[test]
fn dead_board_ignores_input_and_gravity() {
    let mut board = new_board(25);
    board.death_time = Some(5);
    let before_piece = board.falling_piece;
    let before_rows = board.blocks.rows.clone();
    let mut keys = held(Key::HardDrop);
    board.update(&mut keys, 5000);
    assert_eq!(board.falling_piece, before_piece);
    assert_eq!(board.blocks.rows, before_rows);
    assert_eq!(keys[0].timing, KeyTiming::Idle);
    assert!(board.events.is_empty());
}

#[test]
fn info_banner_expires_after_one_second() {
    let mut board = new_board(26);
    board.info = Some(InfoText { text: String::from("DOUBLE"), time: 100 });
    let mut keys: Vec<KeyInput> = Vec::new();
    board.update(&mut keys, 1100);
    assert!(board.info.is_some());
    board.update(&mut keys, 1101);
    assert!(board.info.is_none());
}

#[test]
fn info_banner_expires_even_on_a_dead_board() {
    let mut board = new_board(27);
    board.info = Some(InfoText { text: String::from("TRIPLE"), time: 0 });
    board.death_time = Some(50);
    let mut keys: Vec<KeyInput> = Vec::new();
    board.update(&mut keys, 2000);
    assert!(board.info.is_none());
}

#[test]
fn hard_drop_key_locks_immediately() {
    let mut board = new_board(28);
    board.falling_piece = Tetromino {
        position: BlockPos::new(3, 10),
        shape: Shape::T,
        rotation_state: 0,
    };
    board.update_ghost();
    let mut keys = held(Key::HardDrop);
    board.update(&mut keys, 10);
    assert!(board
        .events
        .iter()
        .any(|e| matches!(*e, BoardEvent::HardDropped { .. })));
    assert_eq!(board.falling_piece.position, BlockPos::new(3, 20));
    assert_eq!(keys[0].timing, KeyTiming::Single);
}

#[test]
fn blocked_move_emits_a_wall_bump() {
    let mut board = new_board(29);
    // Vertical I against the left wall.
    board.falling_piece = Tetromino {
        position: BlockPos::new(-2, 10),
        shape: Shape::I,
        rotation_state: 1,
    };
    board.update_ghost();
    let mut keys = held(Key::Left);
    board.update(&mut keys, 10);
    assert_eq!(board.falling_piece.position.x, -2);
    assert!(board
        .events
        .iter()
        .any(|e| matches!(*e, BoardEvent::WallBump { to_right: false })));
}

#[test]
fn same_seeds_and_inputs_give_identical_games() {
    let mut a = new_board(33);
    let mut b = new_board(33);
    for frame in 0u64..400 {
        let now = frame * 16;
        let mut keys_a = if frame % 50 == 10 { held(Key::HardDrop) } else { Vec::new() };
        let mut keys_b = keys_a.clone();
        a.update(&mut keys_a, now);
        b.update(&mut keys_b, now);
    }
    assert_eq!(a.blocks.rows, b.blocks.rows);
    assert_eq!(a.falling_piece, b.falling_piece);
    assert_eq!(a.score, b.score);
    assert_eq!(a.outgoing, b.outgoing);
}
