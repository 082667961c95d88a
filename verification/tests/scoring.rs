use tetris_core::score::ScoreHandler;
use tetris_core::tetromino::Shape;

#[test]
fn tetris_attack_values_follow_the_formula() {
    let mut score = ScoreHandler::new();
    // First tetris: combo 1, back-to-back 1, bonus floor(sqrt(0)) = 0.
    let (attack, label) = score.analyze(4, Shape::I, false);
    assert_eq!(attack, 3 + 1 + 0);
    assert_eq!(label.as_deref(), Some("TETRIS"));
    assert_eq!(score.combo, 1);
    assert_eq!(score.b2b, 1);

    // Second consecutive tetris: combo 2, b2b 2, bonus floor(sqrt(1)) = 1.
    let (attack, label) = score.analyze(4, Shape::I, false);
    assert_eq!(attack, 3 + 2 + 1);
    assert_eq!(label.as_deref(), Some("TETRIS"));
    assert_eq!(score.combo, 2);
    assert_eq!(score.b2b, 2);

    // Third: combo 3, b2b 3, bonus floor(sqrt(2)) = 1.
    let (attack, label) = score.analyze(4, Shape::I, false);
    assert_eq!(attack, 3 + 3 + 1);
    assert_eq!(label.as_deref(), Some("TETRIS"));
}

#[test]
fn no_clear_resets_combo_and_keeps_b2b() {
    let mut score = ScoreHandler::new();
    score.analyze(4, Shape::I, false);
    let (attack, label) = score.analyze(0, Shape::T, false);
    assert_eq!(attack, 0);
    assert!(label.is_none());
    assert_eq!(score.combo, 0);
    assert_eq!(score.b2b, 1);
}

#[test]
fn ordinary_clear_breaks_back_to_back() {
    let mut score = ScoreHandler::new();
    score.analyze(4, Shape::I, false);
    let (attack, label) = score.analyze(1, Shape::L, false);
    // Single: (1 - 1) + combo/2 + bonus = 0 + 1 + 0; b2b broke, so no bonus.
    assert_eq!(score.b2b, 0);
    assert_eq!(attack, 0 + 1 + 0);
    assert_eq!(label.as_deref(), Some("SINGLE"));
}

#[test]
fn tspin_labels_and_values() {
    let mut score = ScoreHandler::new();
    let (attack, label) = score.analyze(2, Shape::T, true);
    // T-spin double: 4 + combo/2 + bonus = 4 + 0 + 0 with combo 1, b2b 1.
    assert_eq!(attack, 4);
    assert_eq!(label.as_deref(), Some("T-SPIN DOUBLE"));
    assert_eq!(score.b2b, 1);

    let (attack, label) = score.analyze(1, Shape::T, true);
    // T-spin single: 2 + combo/2 + bonus = 2 + 1 + 1 with combo 2, b2b 2.
    assert_eq!(attack, 2 + 1 + 1);
    assert_eq!(label.as_deref(), Some("T-SPIN SINGLE"));

    let (_, label) = score.analyze(3, Shape::T, true);
    assert_eq!(label.as_deref(), Some("T-SPIN TRIPLE"));
}

#[test]
fn covered_non_t_piece_is_no_tspin() {
    let mut score = ScoreHandler::new();
    let (attack, label) = score.analyze(2, Shape::S, true);
    // Ordinary double: (2 - 1) + combo/2 + bonus = 1 + 0 + 0.
    assert_eq!(attack, 1);
    assert_eq!(label.as_deref(), Some("DOUBLE"));
    assert_eq!(score.b2b, 0);
}

#[test]
fn double_and_triple_labels() {
    let mut score = ScoreHandler::new();
    let (_, label) = score.analyze(2, Shape::J, false);
    assert_eq!(label.as_deref(), Some("DOUBLE"));
    let (_, label) = score.analyze(3, Shape::J, false);
    assert_eq!(label.as_deref(), Some("TRIPLE"));
}

#[test]
fn larger_back_to_back_streak_grows_the_bonus() {
    let mut score = ScoreHandler { combo: 0, b2b: 3 };
    let (attack, _) = score.analyze(4, Shape::I, false);
    // combo 1, b2b 4, bonus floor(sqrt(3)) = 1.
    assert_eq!(attack, 3 + 1 + 1);

    let mut score = ScoreHandler { combo: 0, b2b: 9 };
    let (attack, _) = score.analyze(4, Shape::I, false);
    // combo 1, b2b 10, bonus floor(sqrt(9)) = 3.
    assert_eq!(attack, 3 + 1 + 3);
}
