//! Oscillators: patterns that return to themselves after a fixed period.

use vstd::prelude::*;
use super::{Shape, has_points, lemma_already_normalized};

verus! {

pub open spec fn blinker_points() -> Seq<(i32, i32)> {
    seq![(0i32, 0i32), (0i32, 1i32), (0i32, 2i32)]
}

pub fn blinker() -> (r: Shape)
    ensures
        has_points(r, blinker_points(), (0i32, 2i32)),
{
    let r = Shape::new(vec![(0, 0), (0, 1), (0, 2)]);
    proof {
        lemma_already_normalized(r, blinker_points(), 0, 2);
    }
    r
}

pub open spec fn toad_points() -> Seq<(i32, i32)> {
    seq![(0i32, 0i32), (0i32, 1i32), (0i32, 2i32), (1i32, 1i32), (1i32, 2i32), (1i32, 3i32)]
}

pub fn toad() -> (r: Shape)
    ensures
        has_points(r, toad_points(), (1i32, 3i32)),
{
    let r = Shape::new(vec![(0, 0), (0, 1), (0, 2), (1, 1), (1, 2), (1, 3)]);
    proof {
        lemma_already_normalized(r, toad_points(), 1, 3);
    }
    r
}

pub open spec fn beacon_points() -> Seq<(i32, i32)> {
    seq![(0i32, 0i32), (0i32, 1i32), (1i32, 0i32), (2i32, 3i32), (3i32, 2i32), (3i32, 3i32)]
}

pub fn beacon() -> (r: Shape)
    ensures
        has_points(r, beacon_points(), (3i32, 3i32)),
{
    let r = Shape::new(vec![(0, 0), (0, 1), (1, 0), (2, 3), (3, 2), (3, 3)]);
    proof {
        lemma_already_normalized(r, beacon_points(), 3, 3);
    }
    r
}

/// The pulsar's points: two bars of three cells and their mirror images,
/// repeated in all four quadrants.
pub open spec fn pulsar_points() -> Seq<(i32, i32)> {
    seq![
        (0i32, 2i32),
        (0i32, 8i32),
        (7i32, 2i32),
        (7i32, 8i32),
        (0i32, 3i32),
        (0i32, 9i32),
        (7i32, 3i32),
        (7i32, 9i32),
        (0i32, 4i32),
        (0i32, 10i32),
        (7i32, 4i32),
        (7i32, 10i32),
        (5i32, 2i32),
        (5i32, 8i32),
        (12i32, 2i32),
        (12i32, 8i32),
        (5i32, 3i32),
        (5i32, 9i32),
        (12i32, 3i32),
        (12i32, 9i32),
        (5i32, 4i32),
        (5i32, 10i32),
        (12i32, 4i32),
        (12i32, 10i32),
        (2i32, 0i32),
        (2i32, 7i32),
        (8i32, 0i32),
        (8i32, 7i32),
        (3i32, 0i32),
        (3i32, 7i32),
        (9i32, 0i32),
        (9i32, 7i32),
        (4i32, 0i32),
        (4i32, 7i32),
        (10i32, 0i32),
        (10i32, 7i32),
        (2i32, 5i32),
        (2i32, 12i32),
        (8i32, 5i32),
        (8i32, 12i32),
        (3i32, 5i32),
        (3i32, 12i32),
        (9i32, 5i32),
        (9i32, 12i32),
        (4i32, 5i32),
        (4i32, 12i32),
        (10i32, 5i32),
        (10i32, 12i32),
    ]
}

pub fn pulsar() -> (r: Shape)
    ensures
        has_points(r, pulsar_points(), (12i32, 12i32)),
{
    let r = Shape::new(
        vec![
            (0, 2),
            (0, 8),
            (7, 2),
            (7, 8),
            (0, 3),
            (0, 9),
            (7, 3),
            (7, 9),
            (0, 4),
            (0, 10),
            (7, 4),
            (7, 10),
            (5, 2),
            (5, 8),
            (12, 2),
            (12, 8),
            (5, 3),
            (5, 9),
            (12, 3),
            (12, 9),
            (5, 4),
            (5, 10),
            (12, 4),
            (12, 10),
            (2, 0),
            (2, 7),
            (8, 0),
            (8, 7),
            (3, 0),
            (3, 7),
            (9, 0),
            (9, 7),
            (4, 0),
            (4, 7),
            (10, 0),
            (10, 7),
            (2, 5),
            (2, 12),
            (8, 5),
            (8, 12),
            (3, 5),
            (3, 12),
            (9, 5),
            (9, 12),
            (4, 5),
            (4, 12),
            (10, 5),
            (10, 12),
        ],
    );
    proof {
        lemma_already_normalized(r, pulsar_points(), 12, 12);
    }
    r
}

pub open spec fn penta_points() -> Seq<(i32, i32)> {
    seq![
        (0i32, 1i32),
        (1i32, 1i32),
        (2i32, 0i32),
        (2i32, 2i32),
        (3i32, 1i32),
        (4i32, 1i32),
        (5i32, 1i32),
        (6i32, 1i32),
        (7i32, 0i32),
        (7i32, 2i32),
        (8i32, 1i32),
        (9i32, 1i32),
    ]
}

pub fn penta() -> (r: Shape)
    ensures
        has_points(r, penta_points(), (9i32, 2i32)),
{
    let r = Shape::new(
        vec![
            (0, 1),
            (1, 1),
            (2, 0),
            (2, 2),
            (3, 1),
            (4, 1),
            (5, 1),
            (6, 1),
            (7, 0),
            (7, 2),
            (8, 1),
            (9, 1),
        ],
    );
    proof {
        lemma_already_normalized(r, penta_points(), 9, 2);
    }
    r
}

/// The oscillators, in catalog order.
pub fn all() -> (r: Vec<Shape>)
    ensures
        r@.len() == 5,
        has_points(r@[0], blinker_points(), (0i32, 2i32)),
        has_points(r@[1], toad_points(), (1i32, 3i32)),
        has_points(r@[2], beacon_points(), (3i32, 3i32)),
        has_points(r@[3], pulsar_points(), (12i32, 12i32)),
        has_points(r@[4], penta_points(), (9i32, 2i32)),
{
    let mut r: Vec<Shape> = Vec::new();
    r.push(blinker());
    r.push(toad());
    r.push(beacon());
    r.push(pulsar());
    r.push(penta());
    r
}

} // verus!
