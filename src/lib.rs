//! Conway's Game of Life on a toroidal grid, with every operation on the
//! grid verified against a mathematical model of the board.

pub mod cell;
pub mod universe;
pub mod utils;
