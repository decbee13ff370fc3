//! Behaviour of the transition rules: the Conway predicate, boundary
//! policies, and whole-grid advancement.

use game_of_life::board::Board;
use game_of_life::game_of_life::GameOfLife;
use game_of_life::rules::{BasicRule, Conway, ConwayWrapped, Empty, Rule};
use game_of_life::shapes::oscilators::blinker;
use game_of_life::shapes::ships::glider;

/// The 8 Moore-neighbourhood offsets.
const OFFSETS: [(i32, i32); 8] =
    [(-1, -1), (-1, 0), (-1, 1), (0, -1), (0, 1), (1, -1), (1, 0), (1, 1)];

fn snapshot(b: &Board) -> Vec<Vec<bool>> {
    b.iter()
}

#[test]
fn advance_preserves_dimensions() {
    let b = Board::create_random(7, 5);
    let mut conway = Conway {};
    let next = conway.next_board(&b);
    assert_eq!(next.width(), 7);
    assert_eq!(next.height(), 5);
    let mut wrapped = ConwayWrapped {};
    let next = wrapped.next_board(&b);
    assert_eq!(next.width(), 7);
    assert_eq!(next.height(), 5);
    let mut empty = Empty {};
    let next = empty.next_board(&b);
    assert_eq!(next.width(), 7);
    assert_eq!(next.height(), 5);
}

#[test]
fn empty_rule_is_identity() {
    let b = Board::create_random(6, 4);
    let mut empty = Empty {};
    let next = empty.next_board(&b);
    for x in 0..6 {
        for y in 0..4 {
            assert_eq!(next.get(x, y), b.get(x, y));
        }
    }
}

#[test]
fn conway_transition_law() {
    // For every neighbour count, a centre cell obeys the transition
    // predicate, for both a live and a dead centre.
    for count in 0..=8 {
        let mut b = Board::create(3, 3);
        for &(dx, dy) in OFFSETS.iter().take(count) {
            b.set(1 + dx, 1 + dy, true).unwrap();
        }
        let live_next = Conway::rule(&b, &true, (1, 1));
        let dead_next = Conway::rule(&b, &false, (1, 1));
        assert_eq!(live_next, count == 2 || count == 3);
        assert_eq!(dead_next, count == 3);
    }
}

#[test]
fn wrapped_lookup_never_misses() {
    // Every wrapped neighbour coordinate of every cell is in range.
    let b = Board::create(3, 3);
    for x in 0..3i32 {
        for y in 0..3i32 {
            for &(dx, dy) in OFFSETS.iter() {
                let wx = (x + dx + 3) % 3;
                let wy = (y + dy + 3) % 3;
                assert!(b.get(wx, wy).is_some());
            }
        }
    }
}

#[test]
fn corner_cell_sees_at_most_three_neighbours() {
    // Light up the whole 3x3 grid: the corner still survives, because only
    // its 3 real neighbours count — off-grid cells are dead.
    let mut b = Board::create(3, 3);
    for x in 0..3 {
        for y in 0..3 {
            b.set(x, y, true).unwrap();
        }
    }
    let mut conway = Conway {};
    let next = conway.next_board(&b);
    // Corners have 3 live neighbours: they survive.
    assert_eq!(next.get(0, 0), Some(true));
    assert_eq!(next.get(2, 0), Some(true));
    assert_eq!(next.get(0, 2), Some(true));
    assert_eq!(next.get(2, 2), Some(true));
    // Edge centres have 5, the middle has 8: they die.
    assert_eq!(next.get(1, 0), Some(false));
    assert_eq!(next.get(1, 1), Some(false));
}

#[test]
fn bounded_and_wrapped_differ_at_the_edge() {
    // A vertical line along the left edge: bounded kills the top cell's
    // column-mates differently than the torus, where the line wraps.
    let mut b = Board::create(3, 3);
    b.set(0, 0, true).unwrap();
    b.set(0, 1, true).unwrap();
    b.set(0, 2, true).unwrap();
    let mut conway = Conway {};
    let bounded = conway.next_board(&b);
    // Bounded: the line flips to horizontal through (0..2, 1), clipped.
    assert_eq!(bounded.get(0, 0), Some(false));
    assert_eq!(bounded.get(0, 1), Some(true));
    assert_eq!(bounded.get(1, 1), Some(true));
    // Wrapped on 3 columns: each cell of the full column has 2 live
    // vertical neighbours (wrapping) plus wrapped horizontals.
    let mut wrapped = ConwayWrapped {};
    let toroidal = wrapped.next_board(&b);
    assert_ne!(
        (0..3)
            .flat_map(|x| (0..3).map(move |y| (x, y)))
            .map(|(x, y)| toroidal.get(x, y))
            .collect::<Vec<_>>(),
        (0..3)
            .flat_map(|x| (0..3).map(move |y| (x, y)))
            .map(|(x, y)| bounded.get(x, y))
            .collect::<Vec<_>>()
    );
}

#[test]
fn isolated_cell_dies() {
    // A lone live cell in the middle of a 3x3 grid dies, and nothing is
    // born: one advance yields the all-dead grid.
    let mut g = GameOfLife::create(3, 3);
    g.set(1, 1, true).unwrap();
    g.step();
    for x in 0..3 {
        for y in 0..3 {
            assert_eq!(g.get(x, y), Some(false));
        }
    }
}

#[test]
fn blinker_oscillates_with_period_two() {
    let mut b = Board::create(5, 5);
    let shape = blinker();
    assert_eq!(shape.add(&mut b, (2, 2)), Some(()));
    // The vertical line through (2,2).
    assert_eq!(b.get(2, 1), Some(true));
    assert_eq!(b.get(2, 2), Some(true));
    assert_eq!(b.get(2, 3), Some(true));
    let before = snapshot(&b);
    let mut conway = Conway {};
    let after_one = conway.next_board(&b);
    // The orthogonal line through the same centre.
    for x in 0..5i32 {
        for y in 0..5i32 {
            let expect = y == 2 && (1..=3).contains(&x);
            assert_eq!(after_one.get(x, y), Some(expect));
        }
    }
    let after_two = conway.next_board(&after_one);
    assert_eq!(snapshot(&after_two), before);
}

#[test]
fn glider_translates_by_one_diagonal_every_four_wrapped_steps() {
    let mut b = Board::create(10, 10);
    let shape = glider();
    assert_eq!(shape.add(&mut b, (4, 4)), Some(()));
    let before = snapshot(&b);
    let mut wrapped = ConwayWrapped {};
    for _ in 0..4 {
        b = wrapped.next_board(&b);
    }
    // After one full period the pattern reappears shifted by (-1, +1),
    // with wrap applied at the boundaries.
    for x in 0..10i32 {
        for y in 0..10i32 {
            let sx = ((x + 1) % 10) as usize;
            let sy = ((y + 9) % 10) as usize;
            assert_eq!(b.get(x, y), Some(before[sx][sy]));
        }
    }
}

#[test]
fn step_matches_bounded_conway_rule() {
    let mut g = GameOfLife::create_random(6, 6);
    let reference = g.board.clone();
    let mut conway = Conway {};
    let expected = conway.next_board(&reference);
    g.step();
    for x in 0..6 {
        for y in 0..6 {
            assert_eq!(g.get(x, y), expected.get(x, y));
        }
    }
}
