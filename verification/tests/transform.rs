use glam::{Mat4, Vec3};
use tetris_core::field::PlayingField;
use tetris_core::transformer::Transformer;
use tetris_core::util::{BlockPos, Screen};

#[test]
fn transformer_starts_with_the_identity() {
    let mut t = Transformer::new();
    assert_eq!(t.get(), Mat4::IDENTITY);
}

#[test]
fn pop_restores_what_push_saved() {
    let mut t = Transformer::new();
    let scale = Mat4::from_scale(Vec3::new(2.0, 2.0, 2.0));
    let shift = Mat4::from_translation(Vec3::new(1.0, -1.0, 0.0));
    t.set(scale);
    t.push();
    t.transform(shift);
    assert_ne!(t.get(), scale);
    t.pop();
    assert_eq!(t.get(), scale);
}

#[test]
fn transform_multiplies_onto_the_current_matrix() {
    let mut t = Transformer::new();
    let shift = Mat4::from_translation(Vec3::new(3.0, 4.0, 0.0));
    t.transform(shift);
    assert_eq!(t.get(), Mat4::IDENTITY * shift);
}

#[test]
fn nested_pushes_unwind_in_order() {
    let mut t = Transformer::new();
    let a = Mat4::from_scale(Vec3::new(2.0, 1.0, 1.0));
    let b = Mat4::from_scale(Vec3::new(1.0, 3.0, 1.0));
    t.set(a);
    t.push();
    t.set(b);
    t.push();
    t.set(Mat4::IDENTITY);
    t.pop();
    assert_eq!(t.get(), b);
    t.pop();
    assert_eq!(t.get(), a);
}

#[test]
fn block_pos_vector_arithmetic() {
    let a = BlockPos::new(3, -2);
    let b = BlockPos::new(-1, 5);
    assert_eq!(a.plus(b), BlockPos::new(2, 3));
    assert_eq!(a.minus(b), BlockPos::new(4, -7));
}

#[test]
fn fresh_field_is_empty_and_cells_read_back() {
    let mut f = PlayingField::new();
    for y in 0..32 {
        for x in 0..10 {
            assert!(matches!(f.get(x, y), tetris_core::block::Block::Air));
        }
    }
    let c = tetris_core::block::Block::Block { color: tetris_core::block::BlockColor::Red };
    f.set(7, 30, c);
    assert_eq!(f.get(7, 30), c);
    assert!(matches!(f.get(6, 30), tetris_core::block::Block::Air));
}

#[test]
fn garbage_row_has_one_hole_at_the_chosen_column() {
    let mut f = PlayingField::new();
    f.set(0, 0, tetris_core::block::Block::Block { color: tetris_core::block::BlockColor::Cyan });
    f.insert_garbage_row(6);
    for x in 0..10 {
        let empty = matches!(f.get(x, 0), tetris_core::block::Block::Air);
        assert_eq!(empty, x == 6);
    }
    // The old bottom row moved up.
    assert!(matches!(
        f.get(0, 1),
        tetris_core::block::Block::Block { .. }
    ));
    assert_eq!(f.rows.len(), 32);
}

#[test]
fn full_row_detection() {
    let mut f = PlayingField::new();
    let c = tetris_core::block::Block::Block { color: tetris_core::block::BlockColor::Blue };
    for x in 0..10 {
        f.set(x, 4, c);
    }
    assert!(f.is_row_full(4));
    f.set(3, 4, tetris_core::block::Block::Air);
    assert!(!f.is_row_full(4));
}

#[test]
fn screen_values_are_distinct() {
    assert_ne!(Screen::Menu, Screen::SingleGame);
    assert_ne!(Screen::DoubleGame, Screen::Exit);
}
