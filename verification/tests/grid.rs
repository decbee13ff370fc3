//! Behaviour of the grid itself: construction, bounds-checked access,
//! mutation in place, and iteration.

use game_of_life::board::Board;
use game_of_life::game_of_life::GameOfLife;

#[test]
fn create_all_dead() {
    let b = Board::create(4, 3);
    assert_eq!(b.width(), 4);
    assert_eq!(b.height(), 3);
    for x in 0..4 {
        for y in 0..3 {
            assert_eq!(b.get(x, y), Some(false));
        }
    }
}

#[test]
fn zero_height_grid_has_width_zero() {
    let b = Board::create(7, 0);
    assert_eq!(b.width(), 0);
    assert_eq!(b.height(), 0);
    assert_eq!(b.get(0, 0), None);
}

#[test]
fn get_out_of_range_is_absent() {
    let b = Board::create(3, 3);
    assert_eq!(b.get(-1, 0), None);
    assert_eq!(b.get(0, -1), None);
    assert_eq!(b.get(3, 0), None);
    assert_eq!(b.get(0, 3), None);
    assert_eq!(b.get(2, 2), Some(false));
}

#[test]
fn set_and_get_roundtrip() {
    let mut b = Board::create(3, 3);
    assert_eq!(b.set(1, 2, true), Some(()));
    assert_eq!(b.get(1, 2), Some(true));
    assert_eq!(b.get(2, 1), Some(false));
    assert_eq!(b.set(1, 2, false), Some(()));
    assert_eq!(b.get(1, 2), Some(false));
}

#[test]
fn get_mut_borrows_one_cell() {
    let mut b = Board::create(3, 3);
    match b.get_mut(2, 1) {
        Some(cell) => *cell = true,
        None => panic!("in-range cell must be present"),
    }
    assert_eq!(b.get(2, 1), Some(true));
    assert_eq!(b.get(1, 2), Some(false));
    assert!(b.get_mut(3, 0).is_none());
    assert!(b.get_mut(-1, 0).is_none());
    let mut g = GameOfLife::create(2, 2);
    match g.get_mut(0, 1) {
        Some(cell) => *cell = true,
        None => panic!("in-range cell must be present"),
    }
    assert_eq!(g.get(0, 1), Some(true));
    assert!(g.get_mut(2, 2).is_none());
}

#[test]
fn set_out_of_range_is_silent() {
    let mut b = Board::create(2, 2);
    assert_eq!(b.set(5, 5, true), None);
    for x in 0..2 {
        for y in 0..2 {
            assert_eq!(b.get(x, y), Some(false));
        }
    }
}

#[test]
fn toggle_twice_restores_all_dead() {
    let mut b = Board::create(2, 2);
    assert_eq!(b.toggle(0, 0), Some(()));
    assert_eq!(b.get(0, 0), Some(true));
    assert_eq!(b.toggle(0, 0), Some(()));
    for x in 0..2 {
        for y in 0..2 {
            assert_eq!(b.get(x, y), Some(false));
        }
    }
}

#[test]
fn toggle_out_of_range_is_absent_and_harmless() {
    let mut b = Board::create(2, 2);
    assert_eq!(b.toggle(5, 5), None);
    for x in 0..2 {
        for y in 0..2 {
            assert_eq!(b.get(x, y), Some(false));
        }
    }
}

#[test]
fn clear_kills_everything() {
    let mut b = Board::create_random(6, 5);
    assert_eq!(b.width(), 6);
    assert_eq!(b.height(), 5);
    b.clear();
    for x in 0..6 {
        for y in 0..5 {
            assert_eq!(b.get(x, y), Some(false));
        }
    }
}

#[test]
fn randomize_keeps_dimensions() {
    let mut b = Board::create(5, 4);
    b.randomize();
    assert_eq!(b.width(), 5);
    assert_eq!(b.height(), 4);
    for x in 0..5 {
        for y in 0..4 {
            assert!(b.get(x, y).is_some());
        }
    }
}

#[test]
fn iter_scans_by_first_coordinate() {
    let mut b = Board::create(3, 2);
    b.set(1, 0, true);
    b.set(2, 1, true);
    let rows = b.iter();
    assert_eq!(rows.len(), 3);
    for (x, row) in rows.iter().enumerate() {
        assert_eq!(row.len(), 2);
        for (y, &cell) in row.iter().enumerate() {
            assert_eq!(Some(cell), b.get(x as i32, y as i32));
        }
    }
    assert!(rows[1][0]);
    assert!(rows[2][1]);
    assert!(!rows[0][0]);
}

#[test]
fn indexed_iter_pairs_cells_with_coordinates() {
    let mut b = Board::create(2, 3);
    b.set(1, 2, true);
    let entries = b.indexed_iter();
    assert_eq!(entries.len(), 6);
    let expected: Vec<(i32, i32)> = vec![(0, 0), (0, 1), (0, 2), (1, 0), (1, 1), (1, 2)];
    for (k, &(cell, (x, y))) in entries.iter().enumerate() {
        assert_eq!((x, y), expected[k]);
        assert_eq!(Some(cell), b.get(x, y));
    }
}

#[test]
fn game_mirrors_board_behaviour() {
    let mut g = GameOfLife::create(3, 3);
    assert_eq!(g.width(), 3);
    assert_eq!(g.height(), 3);
    assert_eq!(g.set(1, 1, true), Some(()));
    assert_eq!(g.get(1, 1), Some(true));
    assert_eq!(g.toggle(1, 1), Some(()));
    assert_eq!(g.get(1, 1), Some(false));
    assert_eq!(g.toggle(9, 9), None);
    let rows = g.iter();
    assert_eq!(rows.len(), 3);
    g.clear();
    assert_eq!(g.get(0, 0), Some(false));
    let r = GameOfLife::create_random(4, 2);
    assert_eq!(r.width(), 4);
    assert_eq!(r.height(), 2);
}
