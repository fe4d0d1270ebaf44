use blockfall::catalog::{is_solid, mask, rotate, rotated_index, PieceKind};

const KINDS: [PieceKind; 7] = [
    PieceKind::I,
    PieceKind::T,
    PieceKind::O,
    PieceKind::Z,
    PieceKind::S,
    PieceKind::L,
    PieceKind::J,
];

fn mask_from(text: &str) -> [bool; 16] {
    let mut cells = [false; 16];
    for (i, c) in text.chars().enumerate() {
        cells[i] = c != '.';
    }
    cells
}

#[test]
fn masks_are_the_seven_shapes() {
    assert_eq!(mask(PieceKind::I), mask_from("..X...X...X...X."));
    assert_eq!(mask(PieceKind::T), mask_from("..X..XX...X....."));
    assert_eq!(mask(PieceKind::O), mask_from(".....XX..XX....."));
    assert_eq!(mask(PieceKind::Z), mask_from("..X..XX..X......"));
    assert_eq!(mask(PieceKind::S), mask_from(".X...XX...X....."));
    assert_eq!(mask(PieceKind::L), mask_from(".X...X...XX....."));
    assert_eq!(mask(PieceKind::J), mask_from("..X...X..XX....."));
}

#[test]
fn every_mask_has_four_solid_cells() {
    for kind in KINDS {
        let solid = mask(kind).iter().filter(|c| **c).count();
        assert_eq!(solid, 4);
    }
}

#[test]
fn rotated_index_follows_the_four_formulas() {
    assert_eq!(rotated_index(1, 2, 0), 9);
    assert_eq!(rotated_index(1, 2, 1), 10);
    assert_eq!(rotated_index(1, 2, 2), 6);
    assert_eq!(rotated_index(1, 2, 3), 5);
    assert_eq!(rotated_index(0, 0, 0), 0);
    assert_eq!(rotated_index(0, 0, 1), 12);
    assert_eq!(rotated_index(0, 0, 2), 15);
    assert_eq!(rotated_index(0, 0, 3), 3);
    assert_eq!(rotated_index(3, 3, 0), 15);
    assert_eq!(rotated_index(3, 3, 1), 3);
    assert_eq!(rotated_index(3, 3, 2), 0);
    assert_eq!(rotated_index(3, 3, 3), 12);
}

#[test]
fn rotated_index_stays_inside_the_mask() {
    for r in 0..4 {
        for y in 0..4 {
            for x in 0..4 {
                assert!(rotated_index(x, y, r) < 16);
            }
        }
    }
}

#[test]
fn each_orientation_reads_every_mask_cell_once() {
    for r in 0..4 {
        let mut seen = [false; 16];
        for y in 0..4 {
            for x in 0..4 {
                let i = rotated_index(x, y, r);
                assert!(!seen[i], "index {} read twice at orientation {}", i, r);
                seen[i] = true;
            }
        }
        assert!(seen.iter().all(|s| *s));
    }
}

#[test]
fn one_more_turn_reads_the_turned_cell() {
    for r in 0..4 {
        for y in 0..4 {
            for x in 0..4 {
                assert_eq!(rotated_index(x, y, (r + 1) % 4), rotated_index(y, 3 - x, r));
            }
        }
    }
}

#[test]
fn rotate_counts_turns_modulo_four() {
    for r in 0..12usize {
        for y in 0..4i16 {
            for x in 0..4i16 {
                assert_eq!(rotate(x, y, r), rotated_index(x as usize, y as usize, r % 4));
            }
        }
    }
    assert_eq!(rotate(1, 2, 5), 10);
    assert_eq!(rotate(1, 2, usize::MAX), 5);
}

#[test]
fn solid_cells_of_the_upright_bar() {
    for y in 0..4 {
        for x in 0..4 {
            assert_eq!(is_solid(PieceKind::I, 0, x, y), x == 2);
            assert_eq!(is_solid(PieceKind::I, 1, x, y), y == 2);
            assert_eq!(is_solid(PieceKind::I, 2, x, y), x == 1);
            assert_eq!(is_solid(PieceKind::I, 3, x, y), y == 1);
        }
    }
}

#[test]
fn the_square_looks_the_same_in_every_orientation() {
    for r in 0..9 {
        for y in 0..4 {
            for x in 0..4 {
                let inside = (x == 1 || x == 2) && (y == 1 || y == 2);
                assert_eq!(is_solid(PieceKind::O, r, x, y), inside);
            }
        }
    }
}

#[test]
fn a_turn_keeps_the_number_of_solid_cells() {
    for kind in KINDS {
        for r in 0..4 {
            let mut solid = 0;
            for y in 0..4 {
                for x in 0..4 {
                    if is_solid(kind, r, x, y) {
                        solid += 1;
                    }
                }
            }
            assert_eq!(solid, 4);
        }
    }
}

#[test]
fn kinds_are_numbered_in_catalog_order() {
    for (i, kind) in KINDS.iter().enumerate() {
        assert_eq!(kind.index() as usize, i);
        assert_eq!(PieceKind::from_index(i as u8), Some(*kind));
    }
    assert_eq!(PieceKind::from_index(7), None);
    assert_eq!(PieceKind::from_index(255), None);
}
