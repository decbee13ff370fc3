//! The grid of cells: a flat boolean buffer with a stored height.
//!
//! Storage is column-major: the linear index of cell `(x, y)` is
//! `x * height + y`, so a scan along the first coordinate walks contiguous
//! runs of `height` cells.

use vstd::prelude::*;
use vstd::pervasive::VecAdditionalExecFns;
use vstd::arithmetic::div_mod::lemma_div_by_multiple;

verus! {

/// A finite grid of boolean cells. The width is not stored: it is derived
/// from the buffer length and the height.
#[derive(Debug)]
pub struct Board {
    pub cells: Vec<bool>,
    pub height: usize,
}

impl Board {
    /// The derived width: buffer length divided by height, 0 for an empty grid.
    pub open spec fn spec_width(self) -> int {
        if self.height == 0 {
            0
        } else {
            self.cells@.len() as int / self.height as int
        }
    }

    pub open spec fn spec_height(self) -> int {
        self.height as int
    }

    /// Structural invariant: the buffer length is a whole number of columns,
    /// and both dimensions are representable as `i32` so that signed
    /// coordinate arithmetic (off-grid queries, wrapping) is meaningful.
    pub open spec fn wf(self) -> bool {
        &&& self.height == 0 ==> self.cells@.len() == 0
        &&& self.cells@.len() == self.spec_width() * self.spec_height()
        &&& self.spec_width() <= i32::MAX
        &&& self.spec_height() <= i32::MAX
    }

    /// The cell at in-range coordinates `(x, y)`.
    pub open spec fn cell(self, x: int, y: int) -> bool {
        self.cells@[x * self.spec_height() + y]
    }

    pub open spec fn in_range(self, x: int, y: int) -> bool {
        0 <= x < self.spec_width() && 0 <= y < self.spec_height()
    }

    /// What a coordinate lookup yields: the cell for in-range coordinates,
    /// absent otherwise.
    pub open spec fn spec_get(self, x: int, y: int) -> Option<bool> {
        if self.in_range(x, y) {
            Some(self.cell(x, y))
        } else {
            None
        }
    }

    /// Both grids have the same dimensions.
    pub open spec fn same_dims(self, other: Board) -> bool {
        self.spec_width() == other.spec_width() && self.spec_height() == other.spec_height()
    }

    /// All-dead grid of the given dimensions.
    pub fn create(width: usize, height: usize) -> (r: Board)
        requires
            width <= i32::MAX,
            height <= i32::MAX,
            width * height <= usize::MAX,
        ensures
            r.wf(),
            r.spec_width() == (if height == 0 { 0int } else { width as int }),
            r.spec_height() == height,
            forall|x: int, y: int| r.in_range(x, y) ==> !r.cell(x, y),
    {
        let n: usize = width * height;
        let mut cells: Vec<bool> = Vec::new();
        while cells.len() < n
            invariant
                cells@.len() <= n,
                forall|i: int| 0 <= i < cells@.len() ==> !cells@[i],
            decreases n - cells@.len(),
        {
            cells.push(false);
        }
        let r = Board { cells, height };
        proof {
            if height > 0 {
                lemma_div_by_multiple(width as int, height as int);
            }
            assert forall|x: int, y: int| r.in_range(x, y) implies !r.cell(x, y) by {
                lemma_index_bounds(r, x, y);
            }
        }
        r
    }

    /// Kill every cell, in place.
    pub fn clear(&mut self)
        requires
            old(self).wf(),
        ensures
            final(self).wf(),
            final(self).same_dims(*old(self)),
            forall|x: int, y: int| final(self).in_range(x, y) ==> !final(self).cell(x, y),
    {
        let n: usize = self.cells.len();
        let mut i: usize = 0;
        while i < n
            invariant
                i <= n,
                self.height == old(self).height,
                self.cells@.len() == n,
                n == old(self).cells@.len(),
                forall|j: int| 0 <= j < i ==> !self.cells@[j],
            decreases n - i,
        {
            self.cells.set(i, false);
            i = i + 1;
        }
        proof {
            assert forall|x: int, y: int| self.in_range(x, y) implies !self.cell(x, y) by {
                lemma_index_bounds(*self, x, y);
            }
        }
    }

    /// Reset every cell to an independent random boolean, in place.
    pub fn randomize(&mut self)
        requires
            old(self).wf(),
        ensures
            final(self).wf(),
            final(self).same_dims(*old(self)),
    {
        let n: usize = self.cells.len();
        let mut i: usize = 0;
        while i < n
            invariant
                i <= n,
                self.height == old(self).height,
                self.cells@.len() == n,
                n == old(self).cells@.len(),
            decreases n - i,
        {
            let value = random_bool();
            self.cells.set(i, value);
            i = i + 1;
        }
    }

    /// Grid of the given dimensions with every cell drawn at random.
    pub fn create_random(width: usize, height: usize) -> (r: Board)
        requires
            width <= i32::MAX,
            height <= i32::MAX,
            width * height <= usize::MAX,
        ensures
            r.wf(),
            r.spec_width() == (if height == 0 { 0int } else { width as int }),
            r.spec_height() == height,
    {
        let mut board = Board::create(width, height);
        board.randomize();
        board
    }

    pub fn width(&self) -> (r: usize)
        requires
            self.wf(),
        ensures
            r == self.spec_width(),
    {
        if self.height == 0 {
            return 0;
        }
        self.cells.len() / self.height
    }

    pub fn height(&self) -> (r: usize)
        ensures
            r == self.spec_height(),
    {
        self.height
    }

    /// Linear index of `(x, y)`, absent when either coordinate is negative or
    /// out of range.
    fn get_index(&self, x: i32, y: i32) -> (r: Option<usize>)
        requires
            self.wf(),
        ensures
            self.in_range(x as int, y as int) ==> r == Some(
                (x * self.spec_height() + y) as usize,
            ),
            !self.in_range(x as int, y as int) ==> r == None::<usize>,
    {
        if x < 0 || y < 0 {
            return None;
        }
        let xu: usize = x as usize;
        let yu: usize = y as usize;
        if xu >= self.width() {
            return None;
        }
        if yu >= self.height {
            return None;
        }
        proof {
            lemma_index_bounds(*self, xu as int, yu as int);
        }
        Some(xu * self.height + yu)
    }

    /// Read a cell; absent for out-of-range coordinates.
    pub fn get(&self, x: i32, y: i32) -> (r: Option<bool>)
        requires
            self.wf(),
        ensures
            r == self.spec_get(x as int, y as int),
    {
        match self.get_index(x, y) {
            Some(i) => {
                proof {
                    lemma_index_bounds(*self, x as int, y as int);
                }
                Some(self.cells[i])
            },
            None => None,
        }
    }

    /// Borrow a cell mutably; absent for out-of-range coordinates. The grid
    /// after the call holds whatever the caller leaves behind the returned
    /// reference, at that one cell.
    pub fn get_mut(&mut self, x: i32, y: i32) -> (r: Option<&mut bool>)
        requires
            old(self).wf(),
        ensures
            final(self).wf(),
            final(self).same_dims(*old(self)),
            final(self).height == old(self).height,
            old(self).in_range(x as int, y as int) ==> r is Some && *r.unwrap() == old(self).cell(
                x as int,
                y as int,
            ) && final(self).cells@ == old(self).cells@.update(
                x as int * old(self).spec_height() + y as int,
                *final(r.unwrap()),
            ),
            !old(self).in_range(x as int, y as int) ==> r is None && *final(self) == *old(self),
    {
        match self.get_index(x, y) {
            Some(i) => {
                proof {
                    lemma_index_bounds(*self, x as int, y as int);
                }
                Some(&mut self.cells[i])
            },
            None => None,
        }
    }

    /// Write a cell; reports absence (and leaves the grid unchanged) for
    /// out-of-range coordinates.
    pub fn set(&mut self, x: i32, y: i32, value: bool) -> (r: Option<()>)
        requires
            old(self).wf(),
        ensures
            final(self).wf(),
            final(self).same_dims(*old(self)),
            r is Some <==> old(self).in_range(x as int, y as int),
            !old(self).in_range(x as int, y as int) ==> *final(self) == *old(self),
            forall|a: int, b: int|
                final(self).in_range(a, b) ==> final(self).cell(a, b) == (if a == x && b == y
                    && old(self).in_range(a, b) {
                    value
                } else {
                    old(self).cell(a, b)
                }),
    {
        match self.get_index(x, y) {
            Some(i) => {
                proof {
                    lemma_index_bounds(*self, x as int, y as int);
                }
                self.cells.set(i, value);
                proof {
                    assert forall|a: int, b: int| self.in_range(a, b) implies self.cell(a, b)
                        == (if a == x && b == y && old(self).in_range(a, b) {
                        value
                    } else {
                        old(self).cell(a, b)
                    }) by {
                        lemma_index_bounds(*self, a, b);
                        if !(a == x && b == y) {
                            lemma_index_injective(*old(self), a, b, x as int, y as int);
                        }
                    }
                }
                Some(())
            },
            None => None,
        }
    }

    /// Flip a cell; reports absence (and leaves the grid unchanged) for
    /// out-of-range coordinates.
    pub fn toggle(&mut self, x: i32, y: i32) -> (r: Option<()>)
        requires
            old(self).wf(),
        ensures
            final(self).wf(),
            final(self).same_dims(*old(self)),
            r is Some <==> old(self).in_range(x as int, y as int),
            !old(self).in_range(x as int, y as int) ==> *final(self) == *old(self),
            forall|a: int, b: int|
                final(self).in_range(a, b) ==> final(self).cell(a, b) == (if a == x && b == y
                    && old(self).in_range(a, b) {
                    !old(self).cell(a, b)
                } else {
                    old(self).cell(a, b)
                }),
    {
        let value = match self.get(x, y) {
            Some(v) => !v,
            None => {
                return None;
            },
        };
        self.set(x, y, value)
    }

    /// The grid contents scanned by the first coordinate: element `x` of the
    /// result is the contiguous run of the `height` cells `(x, 0)` up to
    /// `(x, height - 1)`.
    pub fn iter(&self) -> (r: Vec<Vec<bool>>)
        requires
            self.wf(),
        ensures
            r@.len() == self.spec_width(),
            forall|x: int| 0 <= x < r@.len() ==> #[trigger] r@[x]@.len() == self.spec_height(),
            forall|x: int, y: int| self.in_range(x, y) ==> r@[x]@[y] == self.cell(x, y),
    {
        let w = self.width();
        let h = self.height;
        let mut r: Vec<Vec<bool>> = Vec::new();
        for x in 0..w
            invariant
                self.wf(),
                w == self.spec_width(),
                h == self.spec_height(),
                r@.len() == x,
                forall|a: int| 0 <= a < x ==> #[trigger] r@[a]@.len() == h,
                forall|a: int, b: int|
                    0 <= a < x && 0 <= b < h ==> r@[a]@[b] == self.cell(a, b),
        {
            let mut row: Vec<bool> = Vec::new();
            for y in 0..h
                invariant
                    self.wf(),
                    w == self.spec_width(),
                    h == self.spec_height(),
                    x < w,
                    row@.len() == y,
                    forall|b: int| 0 <= b < y ==> row@[b] == self.cell(x as int, b),
            {
                proof {
                    lemma_index_bounds(*self, x as int, y as int);
                }
                row.push(self.cells[x * h + y]);
            }
            r.push(row);
        }
        r
    }

    /// Every cell paired with its coordinates, scanned by the first
    /// coordinate, contiguous in the second: entry `x * height + y` is
    /// `(cell, (x, y))`.
    pub fn indexed_iter(&self) -> (r: Vec<(bool, (i32, i32))>)
        requires
            self.wf(),
        ensures
            r@.len() == self.cells@.len(),
            forall|x: int, y: int|
                self.in_range(x, y) ==> r@[x * self.spec_height() + y] == (
                self.cell(x, y),
                (x as i32, y as i32),
                ),
    {
        let w = self.width();
        let h = self.height;
        let mut r: Vec<(bool, (i32, i32))> = Vec::new();
        let mut x: usize = 0;
        while x < w
            invariant
                self.wf(),
                w == self.spec_width(),
                h == self.spec_height(),
                x <= w,
                r@.len() == x * h,
                forall|a: int, b: int|
                    0 <= a < x && 0 <= b < h ==> r@[a * h + b] == (
                    self.cell(a, b),
                    (a as i32, b as i32),
                    ),
            decreases w - x,
        {
            let mut y: usize = 0;
            while y < h
                invariant
                    self.wf(),
                    w == self.spec_width(),
                    h == self.spec_height(),
                    x < w,
                    y <= h,
                    r@.len() == x * h + y,
                    forall|a: int, b: int|
                        0 <= a < x && 0 <= b < h ==> r@[a * h + b] == (
                        self.cell(a, b),
                        (a as i32, b as i32),
                        ),
                    forall|b: int|
                        0 <= b < y ==> r@[x as int * h + b] == (
                        self.cell(x as int, b),
                        (x as i32, b as i32),
                        ),
                decreases h - y,
            {
                proof {
                    lemma_index_bounds(*self, x as int, y as int);
                }
                r.push((self.cells[x * h + y], (x as i32, y as i32)));
                proof {
                    assert forall|a: int, b: int|
                        0 <= a < x && 0 <= b < h implies r@[a * h + b] == (
                        self.cell(a, b),
                        (a as i32, b as i32),
                        ) by {
                        lemma_index_ordering(a, b, x as int, h as int);
                    }
                }
                y = y + 1;
            }
            proof {
                assert(x as int * h + h == (x + 1) * h) by (nonlinear_arith);
            }
            x = x + 1;
        }
        r
    }
}

impl Clone for Board {
    /// An exact copy: same buffer contents, same height.
    fn clone(&self) -> (r: Self)
        ensures
            r.cells@ == self.cells@,
            r.height == self.height,
    {
        let cells = self.cells.clone();
        proof {
            assert(cells@ =~= self.cells@);
        }
        Board { cells, height: self.height }
    }
}

/// The linear index of an in-range coordinate pair lies inside the buffer.
pub proof fn lemma_index_bounds(b: Board, x: int, y: int)
    requires
        b.wf(),
        b.in_range(x, y),
    ensures
        0 <= x * b.spec_height(),
        x * b.spec_height() + y < b.cells@.len(),
        b.cells@.len() <= usize::MAX,
{
    assert(b.cells.len() == b.cells@.len());
    assert(0 <= x * b.spec_height() && x * b.spec_height() + y < b.spec_width()
        * b.spec_height()) by (nonlinear_arith)
        requires
            0 <= x < b.spec_width(),
            0 <= y < b.spec_height(),
    ;
}

/// Distinct in-range coordinate pairs have distinct linear indices.
pub proof fn lemma_index_injective(bd: Board, a: int, b: int, x: int, y: int)
    requires
        bd.wf(),
        bd.in_range(a, b),
        bd.in_range(x, y),
        !(a == x && b == y),
    ensures
        a * bd.spec_height() + b != x * bd.spec_height() + y,
{
    assert(a * bd.spec_height() + b != x * bd.spec_height() + y) by (nonlinear_arith)
        requires
            0 <= a && 0 <= x,
            0 <= b < bd.spec_height(),
            0 <= y < bd.spec_height(),
            !(a == x && b == y),
    ;
}

/// An index in an earlier column precedes the first index of a later column.
proof fn lemma_index_ordering(a: int, b: int, x: int, h: int)
    requires
        0 <= a < x,
        0 <= b < h,
    ensures
        0 <= a * h + b < x * h,
{
    assert(0 <= a * h + b < x * h) by (nonlinear_arith)
        requires
            0 <= a < x,
            0 <= b < h,
    ;
}

/// Relies on rand::random: an independent uniformly distributed boolean;
/// nothing is promised of the value drawn.
#[verifier::external_body]
fn random_bool() -> bool {
    rand::random()
}

} // verus!
