//! Transition rules: how one generation of the grid becomes the next.
//!
//! A [`Rule`] turns a whole grid into its successor. A [`BasicRule`] only
//! gives the next value of a single cell; every basic rule is lifted to a
//! whole-grid rule by the blanket implementation below, which applies the
//! per-cell rule at every coordinate.
//!
//! The two Conway variants share one transition predicate and differ only in
//! their boundary policy: [`Conway`] treats off-grid neighbours as dead,
//! [`ConwayWrapped`] reduces neighbour coordinates modulo the dimensions.

use vstd::prelude::*;
use vstd::arithmetic::div_mod::{
    lemma_fundamental_div_mod, lemma_mod_division_less_than_divisor, lemma_mod_multiples_vanish,
    lemma_multiply_divide_lt, lemma_small_mod, lemma_div_by_multiple,
};
use crate::board::{Board, lemma_index_bounds};

verus! {

/// The Conway transition predicate: a live cell survives with 2 or 3 live
/// neighbours, a dead cell comes alive with exactly 3.
pub open spec fn spec_transition(cell: bool, neighbours: int) -> bool {
    (cell && (neighbours == 2 || neighbours == 3)) || (!cell && neighbours == 3)
}

/// A live cell at clipped coordinates: anything off the grid counts as dead.
pub open spec fn alive_clipped(b: Board, x: int, y: int) -> bool {
    b.in_range(x, y) && b.cell(x, y)
}

/// A coordinate shifted by an offset and reduced into `[0, d)` modulo `d`.
pub open spec fn wrap_add(c: int, off: int, d: int) -> int {
    (c + off + d) % d
}

/// A live cell at toroidally wrapped coordinates.
pub open spec fn alive_wrapped(b: Board, x: int, y: int, dx: int, dy: int) -> bool {
    b.cell(wrap_add(x, dx, b.spec_width()), wrap_add(y, dy, b.spec_height()))
}

pub open spec fn one_if(a: bool) -> int {
    if a {
        1
    } else {
        0
    }
}

/// Live neighbours of `(x, y)` over the 8 surrounding offsets, off-grid
/// neighbours counting as dead.
pub open spec fn clipped_neighbours(b: Board, x: int, y: int) -> int {
    one_if(alive_clipped(b, x - 1, y - 1)) + one_if(alive_clipped(b, x - 1, y)) + one_if(
        alive_clipped(b, x - 1, y + 1),
    ) + one_if(alive_clipped(b, x, y - 1)) + one_if(alive_clipped(b, x, y + 1)) + one_if(
        alive_clipped(b, x + 1, y - 1),
    ) + one_if(alive_clipped(b, x + 1, y)) + one_if(alive_clipped(b, x + 1, y + 1))
}

/// Live neighbours of `(x, y)` over the 8 surrounding offsets, coordinates
/// wrapped modulo the grid dimensions.
pub open spec fn wrapped_neighbours(b: Board, x: int, y: int) -> int {
    one_if(alive_wrapped(b, x, y, -1, -1)) + one_if(alive_wrapped(b, x, y, -1, 0)) + one_if(
        alive_wrapped(b, x, y, -1, 1),
    ) + one_if(alive_wrapped(b, x, y, 0, -1)) + one_if(alive_wrapped(b, x, y, 0, 1)) + one_if(
        alive_wrapped(b, x, y, 1, -1),
    ) + one_if(alive_wrapped(b, x, y, 1, 0)) + one_if(alive_wrapped(b, x, y, 1, 1))
}

/// A whole-grid rule: produces the next generation without mutating its
/// input, always preserving the grid dimensions.
pub trait Rule {
    /// The cell buffer of the grid this rule produces from `b`.
    spec fn next_cells(&self, b: Board) -> Seq<bool>;

    /// Advance one generation: a fresh grid of identical dimensions whose
    /// buffer is `next_cells` of the input.
    fn next_board(&mut self, board: &Board) -> (r: Board)
        requires
            board.wf(),
        ensures
            r.wf(),
            r.height == board.height,
            r.cells@.len() == board.cells@.len(),
            r.same_dims(*board),
            r.cells@ == old(self).next_cells(*board),
    ;
}

/// A per-cell rule: the next value of one cell from the current grid, the
/// cell's current value and its coordinates.
pub trait BasicRule {
    /// What the cell at `pos` becomes.
    spec fn spec_rule(b: Board, cell: bool, pos: (int, int)) -> bool;

    fn rule(board: &Board, cell: &bool, pos: (i32, i32)) -> (r: bool)
        requires
            board.wf(),
            board.in_range(pos.0 as int, pos.1 as int),
        ensures
            r == Self::spec_rule(*board, *cell, (pos.0 as int, pos.1 as int)),
    ;
}

/// The whole-grid buffer a per-cell rule produces: the rule applied at every
/// coordinate, in storage order.
pub open spec fn lifted_cells<T: BasicRule>(b: Board) -> Seq<bool> {
    Seq::new(
        b.cells@.len(),
        |k: int| T::spec_rule(b, b.cells@[k], (k / b.spec_height(), k % b.spec_height())),
    )
}

impl<T: BasicRule> Rule for T {
    open spec fn next_cells(&self, b: Board) -> Seq<bool> {
        lifted_cells::<T>(b)
    }

    /// Lift the per-cell rule over the whole grid.
    fn next_board(&mut self, board: &Board) -> (r: Board) {
        let w = board.width();
        let h = board.height();
        let mut cells: Vec<bool> = Vec::new();
        let mut x: usize = 0;
        while x < w
            invariant
                board.wf(),
                w == board.spec_width(),
                h == board.spec_height(),
                x <= w,
                cells@.len() == x * h,
                forall|a: int, b: int|
                    0 <= a < x && 0 <= b < h ==> cells@[a * h + b] == T::spec_rule(
                        *board,
                        board.cell(a, b),
                        (a, b),
                    ),
            decreases w - x,
        {
            let mut y: usize = 0;
            while y < h
                invariant
                    board.wf(),
                    w == board.spec_width(),
                    h == board.spec_height(),
                    x < w,
                    y <= h,
                    cells@.len() == x * h + y,
                    forall|a: int, b: int|
                        0 <= a < x && 0 <= b < h ==> cells@[a * h + b] == T::spec_rule(
                            *board,
                            board.cell(a, b),
                            (a, b),
                        ),
                    forall|b: int|
                        0 <= b < y ==> cells@[x as int * h + b] == T::spec_rule(
                            *board,
                            board.cell(x as int, b),
                            (x as int, b),
                        ),
                decreases h - y,
            {
                proof {
                    lemma_index_bounds(*board, x as int, y as int);
                }
                let cell = board.cells[x * h + y];
                let value = T::rule(board, &cell, (x as i32, y as i32));
                cells.push(value);
                proof {
                    assert forall|a: int, b: int|
                        0 <= a < x && 0 <= b < h implies cells@[a * h + b] == T::spec_rule(
                        *board,
                        board.cell(a, b),
                        (a, b),
                    ) by {
                        assert(0 <= a * h + b < x as int * h) by (nonlinear_arith)
                            requires
                                0 <= a < x as int,
                                0 <= b < h,
                        ;
                    }
                }
                y = y + 1;
            }
            proof {
                assert(x as int * h + h == (x + 1) * h) by (nonlinear_arith);
            }
            x = x + 1;
        }
        let r = Board { cells, height: board.height };
        proof {
            if h > 0 {
                lemma_div_by_multiple(w as int, h as int);
            }
            assert forall|k: int| 0 <= k < r.cells@.len() implies r.cells@[k] == lifted_cells::<
                T,
            >(*board)[k] by {
                lemma_cell_of_index(*board, k);
                let a = k / h as int;
                let b = k % h as int;
                lemma_index_bounds(*board, a, b);
            }
            assert(r.cells@ =~= lifted_cells::<T>(*board));
        }
        r
    }
}

/// Decompose a linear index into its coordinates: for an index inside the
/// buffer, `(k / height, k % height)` is in range and selects the cell the
/// index stores.
pub proof fn lemma_cell_of_index(b: Board, k: int)
    requires
        b.wf(),
        0 <= k < b.cells@.len(),
    ensures
        b.in_range(k / b.spec_height(), k % b.spec_height()),
        (k / b.spec_height()) * b.spec_height() + (k % b.spec_height()) == k,
        b.cell(k / b.spec_height(), k % b.spec_height()) == b.cells@[k],
{
    let h = b.spec_height();
    let w = b.spec_width();
    assert(h > 0);
    lemma_fundamental_div_mod(k, h);
    lemma_mod_division_less_than_divisor(k, h);
    assert(k / h >= 0) by (nonlinear_arith)
        requires
            k >= 0,
            h > 0,
            k == h * (k / h) + (k % h),
            0 <= k % h < h,
    ;
    lemma_multiply_divide_lt(k, h, w);
    assert(h * (k / h) == (k / h) * h) by (nonlinear_arith);
}

/// The identity rule: the next generation is an unchanged copy of the input.
#[derive(Debug, Default)]
pub struct Empty {}

impl Rule for Empty {
    open spec fn next_cells(&self, b: Board) -> Seq<bool> {
        b.cells@
    }

    /// Law: advancing under the identity rule returns a grid whose cells
    /// equal the input's, for every grid.
    fn next_board(&mut self, board: &Board) -> (r: Board) {
        let r = board.clone();
        proof {
            assert(r.cells@ =~= board.cells@);
        }
        r
    }
}

/// Conway's rule with a clipped boundary: off-grid neighbours are dead.
#[derive(Debug, Default)]
pub struct Conway {}

impl BasicRule for Conway {
    open spec fn spec_rule(b: Board, cell: bool, pos: (int, int)) -> bool {
        spec_transition(cell, clipped_neighbours(b, pos.0, pos.1))
    }

    fn rule(board: &Board, cell: &bool, pos: (i32, i32)) -> (r: bool) {
        let neighbours_count = get_neighbours_count::<false>(board, pos);
        transition(*cell, neighbours_count)
    }
}

/// Conway's rule on a torus: neighbour coordinates wrap modulo the
/// dimensions.
#[derive(Debug, Default)]
pub struct ConwayWrapped {}

impl BasicRule for ConwayWrapped {
    open spec fn spec_rule(b: Board, cell: bool, pos: (int, int)) -> bool {
        spec_transition(cell, wrapped_neighbours(b, pos.0, pos.1))
    }

    fn rule(board: &Board, cell: &bool, pos: (i32, i32)) -> (r: bool) {
        let neighbours_count = get_neighbours_count::<true>(board, pos);
        transition(*cell, neighbours_count)
    }
}

/// Law: the Conway transition predicate, for every cell value and every
/// neighbour count.
fn transition(cell: bool, neighbours: u8) -> (r: bool)
    ensures
        r == spec_transition(cell, neighbours as int),
{
    (cell && (neighbours == 2 || neighbours == 3)) || (!cell && neighbours == 3)
}

/// Shift a coordinate by an offset of at most one and wrap it into `[0, d)`.
fn wrap_coord(c: i32, off: i32, d: i32) -> (r: i32)
    requires
        0 < d,
        0 <= c < d,
        -1 <= off <= 1,
    ensures
        r == wrap_add(c as int, off as int, d as int),
        0 <= r < d,
{
    proof {
        lemma_wrap_add_cases(c as int, off as int, d as int);
    }
    let t = c + off;
    if t < 0 {
        d - 1
    } else if t >= d {
        0
    } else {
        t
    }
}

/// The branchy form of a wrapped step: stepping at most one off either end
/// comes back around, and the result always lies in `[0, d)`.
proof fn lemma_wrap_add_cases(c: int, off: int, d: int)
    requires
        0 < d,
        0 <= c < d,
        -1 <= off <= 1,
    ensures
        wrap_add(c, off, d) == (if c + off < 0 {
            d - 1
        } else if c + off >= d {
            0
        } else {
            c + off
        }),
        0 <= wrap_add(c, off, d) < d,
{
    let t = c + off;
    if t < 0 {
        assert(t + d == d - 1);
        lemma_small_mod((d - 1) as nat, d as nat);
    } else if t >= d {
        assert(t + d == 2 * d);
        lemma_mod_multiples_vanish(2, 0, d);
        lemma_small_mod(0nat, d as nat);
    } else {
        lemma_mod_multiples_vanish(1, t, d);
        lemma_small_mod(t as nat, d as nat);
    }
}

/// Law: wrapped neighbour lookups never miss — for any in-range cell and any
/// of the 8 neighbour offsets, the wrapped coordinates are again in range, so
/// the lookup always yields a value.
pub proof fn lemma_wrapped_lookup_present(b: Board, x: int, y: int, dx: int, dy: int)
    requires
        b.wf(),
        b.in_range(x, y),
        -1 <= dx <= 1,
        -1 <= dy <= 1,
    ensures
        b.in_range(wrap_add(x, dx, b.spec_width()), wrap_add(y, dy, b.spec_height())),
        b.spec_get(wrap_add(x, dx, b.spec_width()), wrap_add(y, dy, b.spec_height())) is Some,
{
    lemma_wrap_add_cases(x, dx, b.spec_width());
    lemma_wrap_add_cases(y, dy, b.spec_height());
}

/// Law: a coordinate outside the grid always counts as dead under the
/// clipped boundary.
pub proof fn lemma_outside_dead(b: Board, x: int, y: int)
    requires
        !b.in_range(x, y),
    ensures
        !alive_clipped(b, x, y),
{
}

/// Law: a corner cell of a bounded grid has at most 3 neighbours that can
/// count as live — the 5 remaining offsets land outside the grid.
pub proof fn lemma_corner_neighbours(b: Board, x: int, y: int)
    requires
        b.wf(),
        b.in_range(x, y),
        x == 0 || x == b.spec_width() - 1,
        y == 0 || y == b.spec_height() - 1,
    ensures
        clipped_neighbours(b, x, y) <= 3,
{
}

/// Whether one of the 8 neighbours at the given offset is live, under the
/// boundary policy chosen by `WRAPPED`.
fn neighbour_alive<const WRAPPED: bool>(board: &Board, x: i32, y: i32, dx: i32, dy: i32) -> (r:
    bool)
    requires
        board.wf(),
        board.in_range(x as int, y as int),
        -1 <= dx <= 1,
        -1 <= dy <= 1,
    ensures
        WRAPPED ==> r == alive_wrapped(*board, x as int, y as int, dx as int, dy as int),
        !WRAPPED ==> r == alive_clipped(*board, x as int + dx, y as int + dy),
{
    if WRAPPED {
        let w = board.width() as i32;
        let h = board.height() as i32;
        let nx = wrap_coord(x, dx, w);
        let ny = wrap_coord(y, dy, h);
        proof {
            lemma_wrapped_lookup_present(*board, x as int, y as int, dx as int, dy as int);
        }
        board.get(nx, ny).expect("wrapped lookup cannot miss")
    } else {
        let nx = x + dx;
        let ny = y + dy;
        match board.get(nx, ny) {
            Some(v) => v,
            None => false,
        }
    }
}

/// Count the live cells among the 8 neighbours of an in-range cell, under
/// the boundary policy chosen by `WRAPPED`.
#[verifier::rlimit(100)]
#[verifier::spinoff_prover]
fn get_neighbours_count<const WRAPPED: bool>(board: &Board, pos: (i32, i32)) -> (r: u8)
    requires
        board.wf(),
        board.in_range(pos.0 as int, pos.1 as int),
    ensures
        WRAPPED ==> r == wrapped_neighbours(*board, pos.0 as int, pos.1 as int),
        !WRAPPED ==> r == clipped_neighbours(*board, pos.0 as int, pos.1 as int),
{
    let (x, y) = pos;
    let mut result: u8 = 0;
    if neighbour_alive::<WRAPPED>(board, x, y, -1, -1) {
        result = result + 1;
    }
    if neighbour_alive::<WRAPPED>(board, x, y, -1, 0) {
        result = result + 1;
    }
    if neighbour_alive::<WRAPPED>(board, x, y, -1, 1) {
        result = result + 1;
    }
    if neighbour_alive::<WRAPPED>(board, x, y, 0, -1) {
        result = result + 1;
    }
    if neighbour_alive::<WRAPPED>(board, x, y, 0, 1) {
        result = result + 1;
    }
    if neighbour_alive::<WRAPPED>(board, x, y, 1, -1) {
        result = result + 1;
    }
    if neighbour_alive::<WRAPPED>(board, x, y, 1, 0) {
        result = result + 1;
    }
    if neighbour_alive::<WRAPPED>(board, x, y, 1, 1) {
        result = result + 1;
    }
    result
}

} // verus!
