use rand::rngs::SmallRng;
use rand::SeedableRng;
use tetris_core::piece_generator::PieceGenerator;
use tetris_core::tetromino::Shape;

fn shape_index(s: Shape) -> usize {
    match s {
        Shape::I => 0,
        Shape::J => 1,
        Shape::L => 2,
        Shape::O => 3,
        Shape::S => 4,
        Shape::T => 5,
        Shape::Z => 6,
    }
}

#[test]
fn every_group_of_seven_holds_each_shape_once() {
    for seed in 0..5u64 {
        let mut generator = PieceGenerator::new(SmallRng::seed_from_u64(seed));
        let mut emitted: Vec<Shape> = Vec::new();
        for _ in 0..35 {
            emitted.push(generator.next_piece());
        }
        for group in emitted.chunks(7) {
            let mut counts = [0usize; 7];
            for &s in group {
                counts[shape_index(s)] += 1;
            }
            assert_eq!(counts, [1, 1, 1, 1, 1, 1, 1]);
        }
    }
}

#[test]
fn queue_always_holds_five_entries() {
    let mut generator = PieceGenerator::new(SmallRng::seed_from_u64(9));
    assert_eq!(generator.queue.len(), 5);
    for _ in 0..20 {
        generator.next_piece();
        assert_eq!(generator.queue.len(), 5);
    }
}

#[test]
fn next_piece_returns_the_queue_front() {
    let mut generator = PieceGenerator::new(SmallRng::seed_from_u64(4));
    for _ in 0..10 {
        let front = generator.queue[0];
        assert_eq!(generator.next_piece(), front);
    }
}

#[test]
fn same_seed_gives_the_same_sequence() {
    let mut a = PieceGenerator::new(SmallRng::seed_from_u64(7));
    let mut b = PieceGenerator::new(SmallRng::seed_from_u64(7));
    for _ in 0..21 {
        assert_eq!(a.next_piece(), b.next_piece());
    }
}
