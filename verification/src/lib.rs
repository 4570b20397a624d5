//! Conway's Game of Life on a fixed-size toroidal grid, with the cells held
//! in a packed bit set.
//!
//! [`grid::Grid`] is the mathematical model: dimensions and a row-major
//! sequence of cells, with the generation step defined on it.
//! [`universe::Universe`] is the executable grid, whose every operation is
//! stated over that model. [`laws`] holds what follows for all grids.

pub mod arith;
pub mod bitset;
pub mod grid;
pub mod laws;
pub mod pattern;
pub mod rule;
pub mod universe;

pub use crate::universe::{GridError, Universe};
