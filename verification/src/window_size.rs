//! Window geometry: the grid dimensions in cells, the pixel size of one
//! cell, and the mapping from a window-pixel position to the cell under it.

use vstd::prelude::*;
use vstd::arithmetic::div_mod::lemma_div_nonincreasing;

verus! {

/// Dimensions of the presentation window, measured in grid cells and in
/// pixels per cell.
#[derive(Debug)]
pub struct WindowSize {
    pub cells_in_width: u32,
    pub cells_in_height: u32,
    pub cell_width: u32,
    pub cell_height: u32,
}

impl WindowSize {
    /// The window width in pixels.
    pub fn get_width(&self) -> (r: u32)
        requires
            self.cell_width * self.cells_in_width <= u32::MAX,
        ensures
            r == self.cell_width * self.cells_in_width,
    {
        self.cell_width * self.cells_in_width
    }

    /// The window height in pixels.
    pub fn get_height(&self) -> (r: u32)
        requires
            self.cell_height * self.cells_in_height <= u32::MAX,
        ensures
            r == self.cell_height * self.cells_in_height,
    {
        self.cell_height * self.cells_in_height
    }
}

/// Division truncating toward zero, as machine division does: the quotient
/// of the magnitude, with the dividend's sign.
pub open spec fn div_trunc(a: int, d: int) -> int {
    if a >= 0 {
        a / d
    } else {
        -((-a) / d)
    }
}

/// The grid cell under a window-pixel position: each pixel coordinate
/// divided by the cell's pixel extent, truncating toward zero.
pub fn get_cell_from_window_pos(window_size: &WindowSize, pos: (i32, i32)) -> (r: (i32, i32))
    requires
        1 <= window_size.cell_width <= i32::MAX,
        1 <= window_size.cell_height <= i32::MAX,
    ensures
        r.0 == div_trunc(pos.0 as int, window_size.cell_width as int),
        r.1 == div_trunc(pos.1 as int, window_size.cell_height as int),
{
    (div_by_cell(pos.0, window_size.cell_width), div_by_cell(pos.1, window_size.cell_height))
}

/// One pixel coordinate divided by a positive cell extent, truncating
/// toward zero.
fn div_by_cell(lhs: i32, rhs: u32) -> (r: i32)
    requires
        1 <= rhs <= i32::MAX,
    ensures
        r == div_trunc(lhs as int, rhs as int),
{
    if lhs >= 0 {
        let q = (lhs as u32) / rhs;
        q as i32
    } else {
        let magnitude = -(lhs as i64);
        let q = (magnitude as u64) / (rhs as u64);
        proof {
            lemma_div_nonincreasing(magnitude as int, rhs as int);
        }
        (-(q as i64)) as i32
    }
}

} // verus!
