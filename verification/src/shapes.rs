//! Reusable patterns of live cells, placeable anywhere on a grid.
//!
//! A [`Shape`] stores its points normalized so the least first coordinate and
//! least second coordinate are both zero, together with the pre-normalization
//! minima (`pos`) and the bounding extents (`size`). Placement anchors the
//! bounding box's centre — half the extents, floor-divided — at the target
//! position, and writes each point through the grid's own bounds-checked
//! `set`, so points falling off the grid are silently clipped.

pub mod still;
pub mod oscilators;
pub mod ships;
pub mod curious;

use vstd::prelude::*;
use crate::board::Board;

verus! {

/// A normalized pattern of live-cell offsets.
#[derive(Debug)]
pub struct Shape {
    /// Points, normalized into `[0, size.0] x [0, size.1]`.
    pub shape: Vec<(i32, i32)>,
    /// The coordinatewise minima of the points the shape was built from.
    pub pos: (i32, i32),
    /// The bounding extents: coordinatewise maxima minus minima.
    pub size: (i32, i32),
}

impl Shape {
    /// Structural invariant: extents are non-negative, every point lies in
    /// the bounding box, a non-empty shape touches both zero axes, and the
    /// empty shape is the zero shape.
    pub open spec fn wf(self) -> bool {
        &&& self.size.0 >= 0 && self.size.1 >= 0
        &&& forall|i: int|
            0 <= i < self.shape@.len() ==> 0 <= (#[trigger] self.shape@[i]).0 <= self.size.0 && 0
                <= self.shape@[i].1 <= self.size.1
        &&& self.shape@.len() > 0 ==> exists|i: int|
            0 <= i < self.shape@.len() && (#[trigger] self.shape@[i]).0 == 0
        &&& self.shape@.len() > 0 ==> exists|i: int|
            0 <= i < self.shape@.len() && (#[trigger] self.shape@[i]).1 == 0
        &&& self.shape@.len() == 0 ==> self.pos.0 == 0 && self.pos.1 == 0 && self.size.0 == 0
            && self.size.1 == 0
    }

    /// `pos` is the coordinatewise minimum of `points` and `pos + size` the
    /// coordinatewise maximum, and `shape` holds `points` shifted by `-pos`,
    /// in order.
    pub open spec fn normalizes(self, points: Seq<(i32, i32)>) -> bool {
        &&& self.shape@.len() == points.len()
        &&& forall|i: int|
            0 <= i < points.len() ==> self.pos.0 <= (#[trigger] points[i]).0 && self.pos.1
                <= points[i].1
        &&& forall|i: int|
            0 <= i < points.len() ==> (#[trigger] points[i]).0 <= self.pos.0 + self.size.0
                && points[i].1 <= self.pos.1 + self.size.1
        &&& points.len() > 0 ==> exists|i: int|
            0 <= i < points.len() && (#[trigger] points[i]).0 == self.pos.0
        &&& points.len() > 0 ==> exists|i: int|
            0 <= i < points.len() && (#[trigger] points[i]).1 == self.pos.1
        &&& points.len() > 0 ==> exists|i: int|
            0 <= i < points.len() && (#[trigger] points[i]).0 == self.pos.0 + self.size.0
        &&& points.len() > 0 ==> exists|i: int|
            0 <= i < points.len() && (#[trigger] points[i]).1 == self.pos.1 + self.size.1
        &&& forall|i: int|
            0 <= i < points.len() ==> (#[trigger] self.shape@[i]).0 == points[i].0 - self.pos.0
                && self.shape@[i].1 == points[i].1 - self.pos.1
    }

    /// The anchor offset: the pre-normalization minima shifted back by half
    /// the extents, floor-divided.
    pub open spec fn spec_center(self) -> (int, int) {
        (self.pos.0 - self.size.0 as int / 2, self.pos.1 - self.size.1 as int / 2)
    }

    /// Where the shape's origin lands when placed at `pos`.
    pub open spec fn spec_anchor(self, pos: (i32, i32)) -> (int, int) {
        (self.spec_center().0 + pos.0, self.spec_center().1 + pos.1)
    }

    /// Whether placing the shape at `pos` targets the grid coordinate
    /// `(x, y)` with one of its first `n` points.
    pub open spec fn covers_prefix(self, pos: (i32, i32), x: int, y: int, n: int) -> bool {
        exists|i: int|
            0 <= i < n && self.spec_anchor(pos).0 + (#[trigger] self.shape@[i]).0 == x
                && self.spec_anchor(pos).1 + self.shape@[i].1 == y
    }

    /// Whether placing the shape at `pos` targets the grid coordinate `(x, y)`.
    pub open spec fn covers(self, pos: (i32, i32), x: int, y: int) -> bool {
        self.covers_prefix(pos, x, y, self.shape@.len() as int)
    }

    /// The coordinate arithmetic of placing at `pos` stays within `i32`.
    pub open spec fn place_fits(self, pos: (i32, i32)) -> bool {
        &&& i32::MIN <= self.spec_center().0
        &&& i32::MIN <= self.spec_center().1
        &&& i32::MIN <= self.spec_anchor(pos).0
        &&& i32::MIN <= self.spec_anchor(pos).1
        &&& self.spec_anchor(pos).0 + self.size.0 <= i32::MAX
        &&& self.spec_anchor(pos).1 + self.size.1 <= i32::MAX
    }

    /// Build a shape from points, normalizing so the least coordinates
    /// become zero; reports absence for an empty point collection.
    fn new_opt(shape: Vec<(i32, i32)>) -> (r: Option<Shape>)
        requires
            spread_fits(shape@),
        ensures
            r is Some <==> shape@.len() > 0,
            r is Some ==> r.unwrap().wf() && r.unwrap().normalizes(shape@),
    {
        if shape.len() == 0 {
            return None;
        }
        let n = shape.len();
        let first = shape[0];
        let mut x_min: i32 = first.0;
        let mut x_max: i32 = first.0;
        let mut y_min: i32 = first.1;
        let mut y_max: i32 = first.1;
        let mut i: usize = 1;
        while i < n
            invariant
                1 <= i <= n,
                n == shape@.len(),
                forall|j: int|
                    0 <= j < i ==> x_min <= (#[trigger] shape@[j]).0 <= x_max && y_min
                        <= shape@[j].1 <= y_max,
                exists|j: int| 0 <= j < i && (#[trigger] shape@[j]).0 == x_min,
                exists|j: int| 0 <= j < i && (#[trigger] shape@[j]).0 == x_max,
                exists|j: int| 0 <= j < i && (#[trigger] shape@[j]).1 == y_min,
                exists|j: int| 0 <= j < i && (#[trigger] shape@[j]).1 == y_max,
            decreases n - i,
        {
            let p = shape[i];
            if p.0 < x_min {
                x_min = p.0;
            }
            if p.0 > x_max {
                x_max = p.0;
            }
            if p.1 < y_min {
                y_min = p.1;
            }
            if p.1 > y_max {
                y_max = p.1;
            }
            i = i + 1;
        }
        let mut norm: Vec<(i32, i32)> = Vec::new();
        let mut i: usize = 0;
        while i < n
            invariant
                i <= n,
                n == shape@.len(),
                spread_fits(shape@),
                norm@.len() == i,
                forall|j: int| 0 <= j < n ==> x_min <= (#[trigger] shape@[j]).0 <= x_max,
                forall|j: int| 0 <= j < n ==> y_min <= (#[trigger] shape@[j]).1 <= y_max,
                exists|j: int| 0 <= j < n && (#[trigger] shape@[j]).0 == x_min,
                exists|j: int| 0 <= j < n && (#[trigger] shape@[j]).1 == y_min,
                exists|j: int| 0 <= j < n && (#[trigger] shape@[j]).0 == x_max,
                exists|j: int| 0 <= j < n && (#[trigger] shape@[j]).1 == y_max,
                forall|j: int|
                    0 <= j < i ==> (#[trigger] norm@[j]).0 == shape@[j].0 - x_min && norm@[j].1
                        == shape@[j].1 - y_min,
            decreases n - i,
        {
            let p = shape[i];
            norm.push((p.0 - x_min, p.1 - y_min));
            i = i + 1;
        }
        proof {
            let jx = choose|j: int| 0 <= j < n && (#[trigger] shape@[j]).0 == x_min;
            let kx = choose|j: int| 0 <= j < n && (#[trigger] shape@[j]).0 == x_max;
            assert(shape@[kx].0 - shape@[jx].0 <= i32::MAX);
            let jy = choose|j: int| 0 <= j < n && (#[trigger] shape@[j]).1 == y_min;
            let ky = choose|j: int| 0 <= j < n && (#[trigger] shape@[j]).1 == y_max;
            assert(shape@[ky].1 - shape@[jy].1 <= i32::MAX);
        }
        let s = Shape { shape: norm, pos: (x_min, y_min), size: (x_max - x_min, y_max - y_min) };
        proof {
            let jx = choose|j: int| 0 <= j < n && (#[trigger] shape@[j]).0 == x_min;
            assert(s.shape@[jx].0 == 0);
            let jy = choose|j: int| 0 <= j < n && (#[trigger] shape@[j]).1 == y_min;
            assert(s.shape@[jy].1 == 0);
        }
        Some(s)
    }

    /// Build a shape from points, normalizing so the least coordinates
    /// become zero; an empty collection degenerates to the zero shape.
    pub fn new(shape: Vec<(i32, i32)>) -> (r: Shape)
        requires
            spread_fits(shape@),
        ensures
            r.wf(),
            shape@.len() > 0 ==> r.normalizes(shape@),
            shape@.len() == 0 ==> r.shape@.len() == 0,
    {
        match Shape::new_opt(shape) {
            Some(s) => s,
            None => Shape { shape: Vec::new(), pos: (0, 0), size: (0, 0) },
        }
    }

    /// The anchor offset in executable form.
    fn center(&self) -> (r: (i32, i32))
        requires
            self.wf(),
            i32::MIN <= self.spec_center().0,
            i32::MIN <= self.spec_center().1,
        ensures
            r.0 == self.spec_center().0,
            r.1 == self.spec_center().1,
    {
        let half_x = ((self.size.0 as u32) / 2) as i32;
        let half_y = ((self.size.1 as u32) / 2) as i32;
        (self.pos.0 - half_x, self.pos.1 - half_y)
    }

    /// The anchor for a placement at `pos` in executable form.
    fn center_at_pos(&self, pos: (i32, i32)) -> (r: (i32, i32))
        requires
            self.wf(),
            self.place_fits(pos),
        ensures
            r.0 == self.spec_anchor(pos).0,
            r.1 == self.spec_anchor(pos).1,
    {
        let center = self.center();
        (center.0 + pos.0, center.1 + pos.1)
    }

    /// Place the shape on the grid, its bounding-box centre at `pos`. Every
    /// targeted in-range cell is set live and nothing else changes; points
    /// falling off the grid are clipped silently. The result reports whether
    /// every point landed on the grid.
    pub fn add(&self, board: &mut Board, pos: (i32, i32)) -> (r: Option<()>)
        requires
            old(board).wf(),
            self.wf(),
            self.place_fits(pos),
        ensures
            final(board).wf(),
            final(board).same_dims(*old(board)),
            forall|a: int, b: int|
                final(board).in_range(a, b) ==> final(board).cell(a, b) == (old(board).cell(a, b)
                    || self.covers(pos, a, b)),
            r is Some <==> forall|i: int|
                0 <= i < self.shape@.len() ==> old(board).in_range(
                    self.spec_anchor(pos).0 + (#[trigger] self.shape@[i]).0,
                    self.spec_anchor(pos).1 + self.shape@[i].1,
                ),
    {
        let center = self.center_at_pos(pos);
        let n = self.shape.len();
        let mut all_ok: bool = true;
        let mut i: usize = 0;
        while i < n
            invariant
                board.wf(),
                board.same_dims(*old(board)),
                self.wf(),
                self.place_fits(pos),
                n == self.shape@.len(),
                i <= n,
                center.0 == self.spec_anchor(pos).0,
                center.1 == self.spec_anchor(pos).1,
                forall|a: int, b: int|
                    board.in_range(a, b) ==> board.cell(a, b) == (old(board).cell(a, b)
                        || self.covers_prefix(pos, a, b, i as int)),
                all_ok <==> forall|j: int|
                    0 <= j < i ==> old(board).in_range(
                        self.spec_anchor(pos).0 + (#[trigger] self.shape@[j]).0,
                        self.spec_anchor(pos).1 + self.shape@[j].1,
                    ),
            decreases n - i,
        {
            let p = self.shape[i];
            let tx = center.0 + p.0;
            let ty = center.1 + p.1;
            let ghost prev = *board;
            let outcome = board.set(tx, ty, true);
            if outcome.is_none() {
                all_ok = false;
            }
            proof {
                let anchor = self.spec_anchor(pos);
                assert forall|a: int, b: int| board.in_range(a, b) implies board.cell(a, b) == (
                old(board).cell(a, b) || self.covers_prefix(pos, a, b, i + 1)) by {
                    if a == tx as int && b == ty as int {
                        assert(anchor.0 + self.shape@[i as int].0 == a && anchor.1
                            + self.shape@[i as int].1 == b);
                        assert(self.covers_prefix(pos, a, b, i + 1));
                    } else {
                        if self.covers_prefix(pos, a, b, i as int) {
                            let j = choose|j: int|
                                0 <= j < i && anchor.0 + (#[trigger] self.shape@[j]).0 == a
                                    && anchor.1 + self.shape@[j].1 == b;
                            assert(self.covers_prefix(pos, a, b, i + 1));
                        }
                        if self.covers_prefix(pos, a, b, i + 1) {
                            let j = choose|j: int|
                                0 <= j < i + 1 && anchor.0 + (#[trigger] self.shape@[j]).0 == a
                                    && anchor.1 + self.shape@[j].1 == b;
                            assert(j < i);
                            assert(self.covers_prefix(pos, a, b, i as int));
                        }
                    }
                }
            }
            i = i + 1;
        }
        if all_ok {
            Some(())
        } else {
            None
        }
    }
}

impl Clone for Shape {
    /// An exact copy of the pattern: a shape is immutable once built and may
    /// be placed many times.
    fn clone(&self) -> (r: Self)
        ensures
            r.shape@ == self.shape@,
            r.pos == self.pos,
            r.size == self.size,
    {
        let n = self.shape.len();
        let mut points: Vec<(i32, i32)> = Vec::new();
        let mut i: usize = 0;
        while i < n
            invariant
                i <= n,
                n == self.shape@.len(),
                points@.len() == i,
                forall|j: int| 0 <= j < i ==> points@[j] == self.shape@[j],
            decreases n - i,
        {
            points.push(self.shape[i]);
            i = i + 1;
        }
        proof {
            assert(points@ =~= self.shape@);
        }
        Shape { shape: points, pos: (self.pos.0, self.pos.1), size: (self.size.0, self.size.1) }
    }
}

/// No two points are farther apart than `i32::MAX` along either axis, so
/// normalization cannot overflow.
pub open spec fn spread_fits(points: Seq<(i32, i32)>) -> bool {
    forall|i: int, j: int|
        0 <= i < points.len() && 0 <= j < points.len() ==> (#[trigger] points[i]).0 - (
        #[trigger] points[j]).0 <= i32::MAX && points[i].1 - points[j].1 <= i32::MAX
}

/// The shape holds exactly these already-normalized points, in this order.
pub open spec fn has_points(s: Shape, points: Seq<(i32, i32)>, size: (i32, i32)) -> bool {
    &&& s.wf()
    &&& s.shape@ == points
    &&& s.pos == (0i32, 0i32)
    &&& s.size == size
}

/// A shape built from points that are already normalized — all coordinates
/// non-negative, both zero axes touched, extents `(w, h)` attained — keeps
/// them unchanged.
pub proof fn lemma_already_normalized(s: Shape, points: Seq<(i32, i32)>, w: int, h: int)
    requires
        s.normalizes(points),
        points.len() > 0,
        forall|i: int|
            0 <= i < points.len() ==> 0 <= (#[trigger] points[i]).0 <= w && 0 <= points[i].1 <= h,
        exists|i: int| 0 <= i < points.len() && (#[trigger] points[i]).0 == 0,
        exists|i: int| 0 <= i < points.len() && (#[trigger] points[i]).1 == 0,
        exists|i: int| 0 <= i < points.len() && (#[trigger] points[i]).0 == w,
        exists|i: int| 0 <= i < points.len() && (#[trigger] points[i]).1 == h,
    ensures
        s.pos.0 == 0 && s.pos.1 == 0,
        s.size.0 == w && s.size.1 == h,
        s.shape@ == points,
{
    let j0 = choose|i: int| 0 <= i < points.len() && (#[trigger] points[i]).0 == s.pos.0;
    let i0 = choose|i: int| 0 <= i < points.len() && (#[trigger] points[i]).0 == 0;
    assert(s.pos.0 <= points[i0].0);
    assert(points[j0].0 >= 0);
    let j1 = choose|i: int| 0 <= i < points.len() && (#[trigger] points[i]).1 == s.pos.1;
    let i1 = choose|i: int| 0 <= i < points.len() && (#[trigger] points[i]).1 == 0;
    assert(s.pos.1 <= points[i1].1);
    assert(points[j1].1 >= 0);
    let k0 = choose|i: int|
        0 <= i < points.len() && (#[trigger] points[i]).0 == s.pos.0 + s.size.0;
    let m0 = choose|i: int| 0 <= i < points.len() && (#[trigger] points[i]).0 == w;
    assert(points[m0].0 <= s.pos.0 + s.size.0);
    assert(points[k0].0 <= w);
    let k1 = choose|i: int|
        0 <= i < points.len() && (#[trigger] points[i]).1 == s.pos.1 + s.size.1;
    let m1 = choose|i: int| 0 <= i < points.len() && (#[trigger] points[i]).1 == h;
    assert(points[m1].1 <= s.pos.1 + s.size.1);
    assert(points[k1].1 <= h);
    assert forall|i: int| 0 <= i < points.len() implies s.shape@[i] == points[i] by {
        assert(s.shape@[i].0 == points[i].0 - s.pos.0 && s.shape@[i].1 == points[i].1 - s.pos.1);
    }
    assert(s.shape@ =~= points);
}

} // verus!
