//! Methuselahs: small patterns with long, eventful evolutions.

use vstd::prelude::*;
use super::{Shape, has_points, lemma_already_normalized};

verus! {

pub open spec fn r_pentomino_points() -> Seq<(i32, i32)> {
    seq![(0i32, 1i32), (1i32, 0i32), (1i32, 1i32), (1i32, 2i32), (2i32, 0i32)]
}

pub fn r_pentomino() -> (r: Shape)
    ensures
        has_points(r, r_pentomino_points(), (2i32, 2i32)),
{
    let r = Shape::new(vec![(0, 1), (1, 0), (1, 1), (1, 2), (2, 0)]);
    proof {
        lemma_already_normalized(r, r_pentomino_points(), 2, 2);
    }
    r
}

pub open spec fn diehard_points() -> Seq<(i32, i32)> {
    seq![
        (0i32, 0i32),
        (1i32, 0i32),
        (1i32, 2i32),
        (2i32, 0i32),
        (6i32, 0i32),
        (6i32, 1i32),
        (7i32, 1i32),
    ]
}

pub fn diehard() -> (r: Shape)
    ensures
        has_points(r, diehard_points(), (7i32, 2i32)),
{
    let r = Shape::new(vec![(0, 0), (1, 0), (1, 2), (2, 0), (6, 0), (6, 1), (7, 1)]);
    proof {
        lemma_already_normalized(r, diehard_points(), 7, 2);
    }
    r
}

pub open spec fn acorn_points() -> Seq<(i32, i32)> {
    seq![
        (0i32, 0i32),
        (1i32, 0i32),
        (2i32, 0i32),
        (3i32, 1i32),
        (5i32, 0i32),
        (5i32, 2i32),
        (6i32, 0i32),
    ]
}

pub fn acorn() -> (r: Shape)
    ensures
        has_points(r, acorn_points(), (6i32, 2i32)),
{
    let r = Shape::new(vec![(0, 0), (1, 0), (2, 0), (3, 1), (5, 0), (5, 2), (6, 0)]);
    proof {
        lemma_already_normalized(r, acorn_points(), 6, 2);
    }
    r
}

/// The methuselahs, in catalog order.
pub fn all() -> (r: Vec<Shape>)
    ensures
        r@.len() == 3,
        has_points(r@[0], r_pentomino_points(), (2i32, 2i32)),
        has_points(r@[1], diehard_points(), (7i32, 2i32)),
        has_points(r@[2], acorn_points(), (6i32, 2i32)),
{
    let mut r: Vec<Shape> = Vec::new();
    r.push(r_pentomino());
    r.push(diehard());
    r.push(acorn());
    r
}

} // verus!
