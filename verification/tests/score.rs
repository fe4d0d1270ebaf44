use blockfall::score::{ScoreTracker, PIECE_POINTS};

#[test]
fn a_new_score_is_zero() {
    assert_eq!(ScoreTracker::new().total(), 0);
}

#[test]
fn a_locked_piece_is_worth_twenty_five() {
    let mut score = ScoreTracker::new();
    score.add_piece_locked();
    assert_eq!(score.total(), 25);
    score.add_piece_locked();
    assert_eq!(score.total(), 50);
    assert_eq!(PIECE_POINTS, 25);
}

#[test]
fn the_row_bonus_doubles_with_each_row() {
    for (n, bonus) in [(1usize, 200u64), (2, 400), (3, 800), (4, 1600)] {
        let mut score = ScoreTracker::new();
        score.add_lines_cleared(n);
        assert_eq!(score.total(), bonus);
    }
}

#[test]
fn no_row_no_bonus() {
    let mut score = ScoreTracker::new();
    score.add_piece_locked();
    score.add_lines_cleared(0);
    assert_eq!(score.total(), 25);
}

#[test]
fn a_piece_that_clears_one_row_earns_225() {
    let mut score = ScoreTracker::new();
    score.add_piece_locked();
    score.add_lines_cleared(1);
    assert_eq!(score.total(), 225);
}

#[test]
fn the_bonus_follows_the_shift_formula() {
    for n in 1..=57usize {
        let mut score = ScoreTracker::new();
        score.add_lines_cleared(n);
        assert_eq!(score.total(), (1u64 << n) * 100);
    }
}

#[test]
fn the_score_only_grows() {
    let mut score = ScoreTracker::new();
    let mut last = 0;
    for n in 0..5 {
        score.add_piece_locked();
        assert!(score.total() > last);
        last = score.total();
        score.add_lines_cleared(n);
        assert!(score.total() >= last);
        last = score.total();
    }
    assert_eq!(last, 5 * 25 + 200 + 400 + 800 + 1600);
}
