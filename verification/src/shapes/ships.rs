//! Spaceships: patterns that translate themselves across the grid.

use vstd::prelude::*;
use super::{Shape, has_points, lemma_already_normalized};

verus! {

pub open spec fn glider_points() -> Seq<(i32, i32)> {
    seq![(2i32, 1i32), (1i32, 2i32), (0i32, 0i32), (0i32, 1i32), (0i32, 2i32)]
}

pub fn glider() -> (r: Shape)
    ensures
        has_points(r, glider_points(), (2i32, 2i32)),
{
    let r = Shape::new(vec![(2, 1), (1, 2), (0, 0), (0, 1), (0, 2)]);
    proof {
        lemma_already_normalized(r, glider_points(), 2, 2);
    }
    r
}

/// The spaceships, in catalog order.
pub fn all() -> (r: Vec<Shape>)
    ensures
        r@.len() == 1,
        has_points(r@[0], glider_points(), (2i32, 2i32)),
{
    let mut r: Vec<Shape> = Vec::new();
    r.push(glider());
    r
}

} // verus!
