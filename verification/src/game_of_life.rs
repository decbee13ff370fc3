//! The simulation facade: a grid together with the bounded Conway rule,
//! stepped in place.

use vstd::prelude::*;
use crate::board::Board;
use crate::rules::{Conway, Rule, lifted_cells};

verus! {

/// A game: a grid advanced in place by Conway's rule with the clipped
/// boundary. The grid itself is public so that callers can render it or
/// place shapes on it between steps.
#[derive(Debug)]
pub struct GameOfLife {
    pub board: Board,
}

impl GameOfLife {
    pub open spec fn wf(self) -> bool {
        self.board.wf()
    }

    pub open spec fn spec_width(self) -> int {
        self.board.spec_width()
    }

    pub open spec fn spec_height(self) -> int {
        self.board.spec_height()
    }

    pub open spec fn cell(self, x: int, y: int) -> bool {
        self.board.cell(x, y)
    }

    pub open spec fn in_range(self, x: int, y: int) -> bool {
        self.board.in_range(x, y)
    }

    pub open spec fn spec_get(self, x: int, y: int) -> Option<bool> {
        self.board.spec_get(x, y)
    }

    /// All-dead game of the given dimensions.
    pub fn create(width: usize, height: usize) -> (r: GameOfLife)
        requires
            width <= i32::MAX,
            height <= i32::MAX,
            width * height <= usize::MAX,
        ensures
            r.wf(),
            r.spec_width() == (if height == 0 { 0int } else { width as int }),
            r.spec_height() == height,
            forall|x: int, y: int| r.in_range(x, y) ==> !r.cell(x, y),
    {
        GameOfLife { board: Board::create(width, height) }
    }

    /// Kill every cell, in place.
    pub fn clear(&mut self)
        requires
            old(self).wf(),
        ensures
            final(self).wf(),
            final(self).board.same_dims(old(self).board),
            forall|x: int, y: int| final(self).in_range(x, y) ==> !final(self).cell(x, y),
    {
        self.board.clear();
    }

    /// Reset every cell to an independent random boolean, in place.
    pub fn randomize(&mut self)
        requires
            old(self).wf(),
        ensures
            final(self).wf(),
            final(self).board.same_dims(old(self).board),
    {
        self.board.randomize();
    }

    /// Game of the given dimensions with every cell drawn at random.
    pub fn create_random(width: usize, height: usize) -> (r: GameOfLife)
        requires
            width <= i32::MAX,
            height <= i32::MAX,
            width * height <= usize::MAX,
        ensures
            r.wf(),
            r.spec_width() == (if height == 0 { 0int } else { width as int }),
            r.spec_height() == height,
    {
        let mut game = GameOfLife::create(width, height);
        game.randomize();
        game
    }

    pub fn width(&self) -> (r: usize)
        requires
            self.wf(),
        ensures
            r == self.spec_width(),
    {
        self.board.width()
    }

    pub fn height(&self) -> (r: usize)
        ensures
            r == self.spec_height(),
    {
        self.board.height()
    }

    /// Read a cell; absent for out-of-range coordinates.
    pub fn get(&self, x: i32, y: i32) -> (r: Option<bool>)
        requires
            self.wf(),
        ensures
            r == self.spec_get(x as int, y as int),
    {
        self.board.get(x, y)
    }

    /// Borrow a cell mutably; absent for out-of-range coordinates.
    pub fn get_mut(&mut self, x: i32, y: i32) -> (r: Option<&mut bool>)
        requires
            old(self).wf(),
        ensures
            final(self).wf(),
            final(self).board.same_dims(old(self).board),
            old(self).in_range(x as int, y as int) ==> r is Some && *r.unwrap() == old(self).cell(
                x as int,
                y as int,
            ) && final(self).board.cells@ == old(self).board.cells@.update(
                x as int * old(self).spec_height() + y as int,
                *final(r.unwrap()),
            ),
            !old(self).in_range(x as int, y as int) ==> r is None && final(self).board == old(
                self,
            ).board,
    {
        self.board.get_mut(x, y)
    }

    /// Write a cell; reports absence (and leaves the game unchanged) for
    /// out-of-range coordinates.
    pub fn set(&mut self, x: i32, y: i32, value: bool) -> (r: Option<()>)
        requires
            old(self).wf(),
        ensures
            final(self).wf(),
            final(self).board.same_dims(old(self).board),
            r is Some <==> old(self).in_range(x as int, y as int),
            !old(self).in_range(x as int, y as int) ==> final(self).board == old(self).board,
            forall|a: int, b: int|
                final(self).in_range(a, b) ==> final(self).cell(a, b) == (if a == x && b == y
                    && old(self).in_range(a, b) {
                    value
                } else {
                    old(self).cell(a, b)
                }),
    {
        self.board.set(x, y, value)
    }

    /// Flip a cell; reports absence (and leaves the game unchanged) for
    /// out-of-range coordinates.
    pub fn toggle(&mut self, x: i32, y: i32) -> (r: Option<()>)
        requires
            old(self).wf(),
        ensures
            final(self).wf(),
            final(self).board.same_dims(old(self).board),
            r is Some <==> old(self).in_range(x as int, y as int),
            !old(self).in_range(x as int, y as int) ==> final(self).board == old(self).board,
            forall|a: int, b: int|
                final(self).in_range(a, b) ==> final(self).cell(a, b) == (if a == x && b == y
                    && old(self).in_range(a, b) {
                    !old(self).cell(a, b)
                } else {
                    old(self).cell(a, b)
                }),
    {
        self.board.toggle(x, y)
    }

    /// The grid contents scanned by the first coordinate: element `x` of the
    /// result is the contiguous run of the `height` cells of column `x`.
    pub fn iter(&self) -> (r: Vec<Vec<bool>>)
        requires
            self.wf(),
        ensures
            r@.len() == self.spec_width(),
            forall|x: int| 0 <= x < r@.len() ==> #[trigger] r@[x]@.len() == self.spec_height(),
            forall|x: int, y: int| self.in_range(x, y) ==> r@[x]@[y] == self.cell(x, y),
    {
        self.board.iter()
    }

    /// Advance one generation in place, under Conway's rule with the clipped
    /// boundary.
    pub fn step(&mut self)
        requires
            old(self).wf(),
        ensures
            final(self).wf(),
            final(self).board.same_dims(old(self).board),
            final(self).board.cells@ == lifted_cells::<Conway>(old(self).board),
    {
        let mut rule = Conway {};
        let next = rule.next_board(&self.board);
        self.board = next;
    }
}

impl Clone for GameOfLife {
    /// An exact copy: same buffer contents, same height.
    fn clone(&self) -> (r: Self)
        ensures
            r.board.cells@ == self.board.cells@,
            r.board.height == self.board.height,
    {
        GameOfLife { board: self.board.clone() }
    }
}

} // verus!
