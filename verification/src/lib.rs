//! Cellular-automaton simulation on a finite two-dimensional grid.
//!
//! The grid is a flat boolean buffer in column-major order (contiguous in the
//! second coordinate), advanced one generation at a time by a pluggable rule.

pub mod board;
pub mod rules;
pub mod shapes;
pub mod game_of_life;
pub mod window_size;

pub use board::Board;
pub use game_of_life::GameOfLife;
pub use shapes::Shape;
