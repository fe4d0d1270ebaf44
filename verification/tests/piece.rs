use blockfall::board::{Board, CellState};
use blockfall::catalog::PieceKind;
use blockfall::piece::{can_move, can_place, ActivePiece, SPAWN_X, SPAWN_Y};

const KINDS: [PieceKind; 7] = [
    PieceKind::I,
    PieceKind::T,
    PieceKind::O,
    PieceKind::Z,
    PieceKind::S,
    PieceKind::L,
    PieceKind::J,
];

#[test]
fn the_square_fits_at_the_top_of_an_empty_board() {
    let board = Board::new();
    assert!(can_place(&board, PieceKind::O, 0, 5, 0));
}

#[test]
fn the_square_falls_to_the_floor_and_locks_there() {
    let mut board = Board::new();
    let mut piece = ActivePiece { kind: PieceKind::O, orientation: 0, x: 5, y: 0 };
    assert!(can_place(&board, piece.kind, piece.orientation, piece.x, piece.y));
    let mut moves = 0;
    while piece.try_move(&board, 0, 1) {
        moves += 1;
    }
    assert_eq!(moves, 14);
    assert_eq!((piece.x, piece.y), (5, 14));
    assert!(!can_move(&board, &piece, 0, 1));
    board.lock(piece.kind, piece.orientation, piece.x, piece.y);
    for y in [15, 16] {
        for x in 1..11 {
            let expected = if x == 6 || x == 7 {
                CellState::Locked(PieceKind::O)
            } else {
                CellState::Empty
            };
            assert_eq!(board.cell(x, y), expected, "cell ({}, {})", x, y);
        }
    }
    let filled = (1..11).filter(|x| board.cell(*x, 16) != CellState::Empty).count();
    assert_eq!(filled, 2);
    for x in 1..11 {
        assert_eq!(board.cell(x, 14), CellState::Empty);
    }
}

#[test]
fn every_kind_fits_where_it_enters() {
    let board = Board::new();
    for kind in KINDS {
        assert!(can_place(&board, kind, 0, SPAWN_X, SPAWN_Y));
    }
}

#[test]
fn a_locked_block_under_a_solid_cell_blocks() {
    // The T at (3, 10) is solid over (5, 10), (4, 11), (5, 11) and (5, 12).
    for (x, y) in [(5, 10), (4, 11), (5, 11), (5, 12)] {
        let mut board = Board::new();
        board.place_block(x, y, PieceKind::J);
        assert!(!can_place(&board, PieceKind::T, 0, 3, 10), "block at ({}, {})", x, y);
    }
}

#[test]
fn a_locked_block_under_a_hollow_cell_does_not_block() {
    let mut board = Board::new();
    for y in 10..14 {
        for x in 3..7 {
            if ![(5, 10), (4, 11), (5, 11), (5, 12)].contains(&(x, y)) {
                board.place_block(x, y, PieceKind::J);
            }
        }
    }
    assert!(can_place(&board, PieceKind::T, 0, 3, 10));
    assert!(!can_place(&board, PieceKind::T, 1, 3, 10));
    assert!(!can_place(&board, PieceKind::T, 0, 4, 10));
}

#[test]
fn a_marked_cell_blocks_like_a_locked_one() {
    let mut board = Board::new();
    for x in 1..11 {
        board.place_block(x, 12, PieceKind::S);
    }
    board.mark_for_clear(&vec![12]);
    assert!(!can_place(&board, PieceKind::O, 0, 5, 10));
    assert!(can_place(&board, PieceKind::O, 0, 5, 9));
}

#[test]
fn walls_block() {
    let board = Board::new();
    // The upright bar is solid in column 2 of its box.
    assert!(can_place(&board, PieceKind::I, 0, -1, 0));
    assert!(!can_place(&board, PieceKind::I, 0, -2, 0));
    assert!(can_place(&board, PieceKind::I, 0, 8, 0));
    assert!(!can_place(&board, PieceKind::I, 0, 9, 0));
    assert!(can_place(&board, PieceKind::I, 0, 4, 13));
    assert!(!can_place(&board, PieceKind::I, 0, 4, 14));
}

#[test]
fn a_solid_cell_outside_the_grid_is_rejected() {
    let board = Board::new();
    // The square is solid in rows 1 and 2 of its box.
    assert!(can_place(&board, PieceKind::O, 0, 5, -1));
    assert!(!can_place(&board, PieceKind::O, 0, 5, -2));
    assert!(!can_place(&board, PieceKind::O, 0, 5, -3));
    assert!(!can_place(&board, PieceKind::O, 0, 5, 40));
    assert!(!can_place(&board, PieceKind::O, 0, -20, 5));
    assert!(!can_place(&board, PieceKind::O, 0, 30, 5));
    assert!(!can_place(&board, PieceKind::O, 0, i16::MAX, i16::MAX));
    assert!(!can_place(&board, PieceKind::O, 0, i16::MIN, i16::MIN));
    assert!(!can_place(&board, PieceKind::I, 0, 4, -1));
}

#[test]
fn hollow_cells_of_the_box_may_hang_outside() {
    let board = Board::new();
    // The lying bar at orientation 3 is solid in row 1 only.
    assert!(can_place(&board, PieceKind::I, 3, 1, -1));
    assert!(can_place(&board, PieceKind::I, 3, 1, 15));
    assert!(!can_place(&board, PieceKind::I, 3, 1, 16));
    assert!(!can_place(&board, PieceKind::I, 3, 1, -2));
}

#[test]
fn can_place_counts_turns_modulo_four() {
    let board = Board::new();
    for kind in KINDS {
        for r in 0..4 {
            for x in -3..12 {
                let once = can_place(&board, kind, r, x, 3);
                assert_eq!(can_place(&board, kind, r + 4, x, 3), once);
                assert_eq!(can_place(&board, kind, r + 8, x, 3), once);
            }
        }
    }
}

#[test]
fn can_move_tests_the_place_after_the_move() {
    let mut board = Board::new();
    board.place_block(8, 6, PieceKind::L);
    let piece = ActivePiece { kind: PieceKind::O, orientation: 0, x: 5, y: 5 };
    for dy in -8..14 {
        for dx in -8..8 {
            assert_eq!(
                can_move(&board, &piece, dx, dy),
                can_place(&board, PieceKind::O, 0, 5 + dx, 5 + dy)
            );
        }
    }
    assert!(can_move(&board, &piece, 0, 0));
    assert!(!can_move(&board, &piece, 1, 0));
    assert!(can_move(&board, &piece, -1, 0));
    assert!(can_move(&board, &piece, 1, 2));
}

#[test]
fn can_move_far_away_is_rejected() {
    let board = Board::new();
    let piece = ActivePiece { kind: PieceKind::O, orientation: 0, x: i16::MAX, y: 0 };
    assert!(!can_move(&board, &piece, i16::MAX, 0));
    assert!(!can_move(&board, &piece, 1, 0));
    let piece = ActivePiece { kind: PieceKind::O, orientation: 0, x: 5, y: i16::MIN };
    assert!(!can_move(&board, &piece, 0, i16::MIN));
    assert!(!can_move(&board, &piece, 0, -1));
    let piece = ActivePiece { kind: PieceKind::O, orientation: 0, x: i16::MIN, y: 5 };
    assert!(can_move(&board, &piece, i16::MAX, 0) == false);
}

#[test]
fn a_move_that_fits_is_made() {
    let board = Board::new();
    let mut piece = ActivePiece { kind: PieceKind::S, orientation: 2, x: 4, y: 3 };
    assert!(piece.try_move(&board, 1, 0));
    assert_eq!(piece, ActivePiece { kind: PieceKind::S, orientation: 2, x: 5, y: 3 });
    assert!(piece.try_move(&board, -2, 0));
    assert_eq!(piece, ActivePiece { kind: PieceKind::S, orientation: 2, x: 3, y: 3 });
    assert!(piece.try_move(&board, 0, 1));
    assert_eq!(piece, ActivePiece { kind: PieceKind::S, orientation: 2, x: 3, y: 4 });
    assert!(piece.try_move(&board, 2, 5));
    assert_eq!(piece, ActivePiece { kind: PieceKind::S, orientation: 2, x: 5, y: 9 });
}

#[test]
fn a_move_that_does_not_fit_leaves_the_piece() {
    let mut board = Board::new();
    board.place_block(8, 6, PieceKind::L);
    let start = ActivePiece { kind: PieceKind::O, orientation: 0, x: 5, y: 5 };
    let mut piece = start;
    assert!(!piece.try_move(&board, 1, 0));
    assert_eq!(piece, start);
    assert!(!piece.try_move(&board, -6, 0));
    assert_eq!(piece, start);
    assert!(!piece.try_move(&board, 0, 10));
    assert_eq!(piece, start);
    assert!(!piece.try_move(&board, i16::MAX, i16::MAX));
    assert_eq!(piece, start);
}

#[test]
fn a_turn_that_fits_is_made() {
    let board = Board::new();
    let mut piece = ActivePiece { kind: PieceKind::L, orientation: 0, x: 4, y: 4 };
    for turn in 1..=8 {
        assert!(piece.try_rotate(&board));
        assert_eq!(
            piece,
            ActivePiece { kind: PieceKind::L, orientation: turn % 4, x: 4, y: 4 }
        );
    }
}

#[test]
fn a_turn_that_does_not_fit_leaves_the_piece() {
    let board = Board::new();
    // The upright bar hugs the left wall; lying down it would reach into it.
    let start = ActivePiece { kind: PieceKind::I, orientation: 0, x: -1, y: 4 };
    let mut piece = start;
    assert!(can_place(&board, piece.kind, piece.orientation, piece.x, piece.y));
    assert!(!piece.try_rotate(&board));
    assert_eq!(piece, start);
    let mut board = Board::new();
    board.place_block(5, 6, PieceKind::T);
    let start = ActivePiece { kind: PieceKind::I, orientation: 0, x: 3, y: 4 };
    let mut piece = start;
    assert!(!piece.try_rotate(&board));
    assert_eq!(piece, start);
}

#[test]
fn a_turn_from_a_large_turn_count_wraps() {
    let board = Board::new();
    let mut piece = ActivePiece { kind: PieceKind::T, orientation: usize::MAX, x: 4, y: 4 };
    assert!(piece.try_rotate(&board));
    assert_eq!(piece.orientation, 0);
    let mut piece = ActivePiece { kind: PieceKind::T, orientation: 6, x: 4, y: 4 };
    assert!(piece.try_rotate(&board));
    assert_eq!(piece.orientation, 3);
}

#[test]
fn a_piece_enters_at_the_top_in_the_middle() {
    for kind in KINDS {
        let piece = ActivePiece::spawn(kind);
        assert_eq!(piece, ActivePiece { kind, orientation: 0, x: 6, y: 0 });
    }
    assert_eq!((SPAWN_X, SPAWN_Y), (6, 0));
}
