//! Still lifes: patterns that Conway's rule leaves unchanged.

use vstd::prelude::*;
use super::{Shape, has_points, lemma_already_normalized};

verus! {

pub open spec fn block_points() -> Seq<(i32, i32)> {
    seq![(0i32, 0i32), (0i32, 1i32), (1i32, 0i32), (1i32, 1i32)]
}

pub fn block() -> (r: Shape)
    ensures
        has_points(r, block_points(), (1i32, 1i32)),
{
    let r = Shape::new(vec![(0, 0), (0, 1), (1, 0), (1, 1)]);
    proof {
        lemma_already_normalized(r, block_points(), 1, 1);
    }
    r
}

pub open spec fn beehive_points() -> Seq<(i32, i32)> {
    seq![(0i32, 1i32), (1i32, 0i32), (1i32, 2i32), (2i32, 0i32), (2i32, 2i32), (3i32, 1i32)]
}

pub fn beehive() -> (r: Shape)
    ensures
        has_points(r, beehive_points(), (3i32, 2i32)),
{
    let r = Shape::new(vec![(0, 1), (1, 0), (1, 2), (2, 0), (2, 2), (3, 1)]);
    proof {
        lemma_already_normalized(r, beehive_points(), 3, 2);
    }
    r
}

pub open spec fn loaf_points() -> Seq<(i32, i32)> {
    seq![
        (0i32, 1i32),
        (1i32, 0i32),
        (1i32, 2i32),
        (2i32, 0i32),
        (2i32, 3i32),
        (3i32, 1i32),
        (3i32, 2i32),
    ]
}

pub fn loaf() -> (r: Shape)
    ensures
        has_points(r, loaf_points(), (3i32, 3i32)),
{
    let r = Shape::new(vec![(0, 1), (1, 0), (1, 2), (2, 0), (2, 3), (3, 1), (3, 2)]);
    proof {
        lemma_already_normalized(r, loaf_points(), 3, 3);
    }
    r
}

pub open spec fn boat_points() -> Seq<(i32, i32)> {
    seq![(0i32, 0i32), (0i32, 1i32), (1i32, 0i32), (1i32, 2i32), (2i32, 1i32)]
}

pub fn boat() -> (r: Shape)
    ensures
        has_points(r, boat_points(), (2i32, 2i32)),
{
    let r = Shape::new(vec![(0, 0), (0, 1), (1, 0), (1, 2), (2, 1)]);
    proof {
        lemma_already_normalized(r, boat_points(), 2, 2);
    }
    r
}

pub open spec fn tub_points() -> Seq<(i32, i32)> {
    seq![(0i32, 1i32), (1i32, 0i32), (1i32, 2i32), (2i32, 1i32)]
}

pub fn tub() -> (r: Shape)
    ensures
        has_points(r, tub_points(), (2i32, 2i32)),
{
    let r = Shape::new(vec![(0, 1), (1, 0), (1, 2), (2, 1)]);
    proof {
        lemma_already_normalized(r, tub_points(), 2, 2);
    }
    r
}

/// The still lifes, in catalog order.
pub fn all() -> (r: Vec<Shape>)
    ensures
        r@.len() == 5,
        has_points(r@[0], block_points(), (1i32, 1i32)),
        has_points(r@[1], beehive_points(), (3i32, 2i32)),
        has_points(r@[2], loaf_points(), (3i32, 3i32)),
        has_points(r@[3], boat_points(), (2i32, 2i32)),
        has_points(r@[4], tub_points(), (2i32, 2i32)),
{
    let mut r: Vec<Shape> = Vec::new();
    r.push(block());
    r.push(beehive());
    r.push(loaf());
    r.push(boat());
    r.push(tub());
    r
}

} // verus!
