use tetris_core::block::{Block, BlockColor};
use tetris_core::field::PlayingField;
use tetris_core::tetromino::{Shape, Tetromino};
use tetris_core::util::BlockPos;

const ALL_SHAPES: [Shape; 7] = [
    Shape::I,
    Shape::J,
    Shape::L,
    Shape::O,
    Shape::S,
    Shape::T,
    Shape::Z,
];

fn piece(x: i32, y: i32, shape: Shape, rotation: u8) -> Tetromino {
    Tetromino {
        position: BlockPos::new(x, y),
        shape,
        rotation_state: rotation,
    }
}

#[test]
fn every_mask_has_exactly_four_blocks() {
    for &shape in ALL_SHAPES.iter() {
        for rotation in 0..4u8 {
            let grid = piece(0, 0, shape, rotation).get_shape();
            let mut count = 0;
            for col in grid.iter() {
                for cell in col.iter() {
                    if let Block::Block { .. } = cell {
                        count += 1;
                    }
                }
            }
            assert_eq!(count, 4);
        }
    }
}

#[test]
fn spawn_state_masks_match_reference_layout() {
    // The I piece spawns as a horizontal bar in the second row from the top
    // of its box; the O piece as a 2x2 square in the middle columns.
    let i = piece(0, 0, Shape::I, 0).get_shape();
    for x in 0..4 {
        for y in 0..4 {
            let filled = !matches!(i[x][y], Block::Air);
            assert_eq!(filled, y == 2);
        }
    }
    let o = piece(0, 0, Shape::O, 0).get_shape();
    for x in 0..4 {
        for y in 0..4 {
            let filled = !matches!(o[x][y], Block::Air);
            assert_eq!(filled, (x == 1 || x == 2) && (y == 2 || y == 3));
        }
    }
}

#[test]
fn new_piece_spawns_at_reference_position() {
    let p = Tetromino::new(Shape::T);
    assert_eq!(p.position, BlockPos::new(3, 20));
    assert_eq!(p.rotation_state, 0);
    assert_eq!(p.shape, Shape::T);
}

#[test]
fn translate_commits_when_free_and_reverts_when_blocked() {
    let field = PlayingField::new();
    let mut p = piece(3, 5, Shape::O, 0);
    assert!(!p.translate(BlockPos::new(-1, 0), &field));
    assert_eq!(p.position, BlockPos::new(2, 5));

    // O blocks sit in mask columns 1 and 2: at x == -1 they reach column 0.
    let mut at_wall = piece(-1, 5, Shape::O, 0);
    assert!(at_wall.translate(BlockPos::new(-1, 0), &field));
    assert_eq!(at_wall.position, BlockPos::new(-1, 5));
}

#[test]
fn translate_fails_at_the_floor() {
    let field = PlayingField::new();
    // O blocks occupy mask rows 2 and 3: at y == -2 they rest on the floor.
    let mut p = piece(3, -2, Shape::O, 0);
    assert!(p.translate(BlockPos::new(0, -1), &field));
    assert_eq!(p.position, BlockPos::new(3, -2));
}

#[test]
fn obstructed_by_placed_blocks_only_inside_the_field() {
    let mut field = PlayingField::new();
    field.set(4, 5, Block::Block { color: BlockColor::Gray });
    // O at (3, 3) has blocks on rows 5 and 6, columns 4 and 5.
    assert!(piece(3, 3, Shape::O, 0).obstructed(&field));
    assert!(!piece(3, 6, Shape::O, 0).obstructed(&field));
    // Far above the field nothing obstructs.
    assert!(!piece(3, 40, Shape::O, 0).obstructed(&field));
}

#[test]
fn rotation_reverses_in_an_open_field() {
    let field = PlayingField::new();
    for &shape in ALL_SHAPES.iter() {
        for rotation in 0..4u8 {
            let original = piece(3, 5, shape, rotation);
            let mut p = original;
            assert!(!p.rotate_cw(&field));
            assert!(!p.rotate_ccw(&field));
            assert_eq!(p, original);

            let mut q = original;
            assert!(!q.rotate_ccw(&field));
            assert!(!q.rotate_cw(&field));
            assert_eq!(q, original);
        }
    }
}

#[test]
fn rotation_advances_state_modulo_four() {
    let field = PlayingField::new();
    let mut p = piece(3, 5, Shape::T, 0);
    for expected in [1u8, 2, 3, 0] {
        assert!(!p.rotate_cw(&field));
        assert_eq!(p.rotation_state, expected);
    }
}

#[test]
fn wall_kick_moves_vertical_bar_off_the_wall() {
    let field = PlayingField::new();
    // Vertical I (column 2 of its box) hugging the left wall.
    let mut p = piece(-2, 5, Shape::I, 1);
    assert!(!p.obstructed(&field));
    assert!(!p.rotate_cw(&field));
    // The plain rotation to the horizontal bar would poke out of the wall;
    // the kick (2, 0) resolves it.
    assert_eq!(p.rotation_state, 2);
    assert_eq!(p.position, BlockPos::new(0, 5));
}

#[test]
fn kick_resolution_is_deterministic() {
    let mut field = PlayingField::new();
    for x in 0..10 {
        if x != 4 {
            field.set(
                x,
                3,
                Block::Block { color: BlockColor::Gray },
            );
        }
    }
    // Vertical I in the hole column; the plain rotation hits the filled row
    // and a kick resolves it, the same way every time.
    let start = piece(2, 2, Shape::I, 1);
    assert!(!start.obstructed(&field));
    let mut a = start;
    let mut b = start;
    let ra = a.rotate_cw(&field);
    let rb = b.rotate_cw(&field);
    assert_eq!(ra, rb);
    assert_eq!(a, b);
    assert!(!ra);
    assert_ne!(a.position, start.position);
}

#[test]
fn blocked_rotation_leaves_the_piece_unchanged() {
    let mut field = PlayingField::new();
    // Box the piece in completely.
    for x in 0..10 {
        for y in 0..8 {
            if !(x >= 3 && x <= 6 && y >= 2 && y <= 3) {
                field.set(
                    x,
                    y,
                    Block::Block { color: BlockColor::Gray },
                );
            }
        }
    }
    // Horizontal I exactly fits the free rows; the vertical target and all
    // its kicks collide.
    let original = piece(3, 0, Shape::I, 0);
    assert!(!original.obstructed(&field));
    let mut p = original;
    assert!(p.rotate_cw(&field));
    assert_eq!(p, original);
}

#[test]
fn each_shape_paints_its_own_color() {
    let expected = [
        (Shape::I, BlockColor::Cyan),
        (Shape::J, BlockColor::Blue),
        (Shape::L, BlockColor::Orange),
        (Shape::O, BlockColor::Yellow),
        (Shape::S, BlockColor::Green),
        (Shape::T, BlockColor::Purple),
        (Shape::Z, BlockColor::Red),
    ];
    for &(shape, want) in expected.iter() {
        let grid = piece(0, 0, shape, 0).get_shape();
        for col in grid.iter() {
            for cell in col.iter() {
                if let Block::Block { color } = cell {
                    assert_eq!(*color, want);
                }
            }
        }
    }
}
