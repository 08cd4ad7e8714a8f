//! Conway's Game of Life on a fixed, finite, non-wrapping rectangular board.
//!
//! `node` holds the cell type, `board` the mathematical model of a board and
//! of one generation, `grid` the executable board, `seed` an opening
//! pattern, and `laws` what follows from the model for every board.

pub mod node;
pub mod board;
pub mod grid;
pub mod seed;
pub mod laws;
