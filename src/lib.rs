//! A toroidal Game of Life engine: a fixed-size grid of cells, a synchronous
//! update step and a text rendering, each stated over a mathematical model.
use vstd::prelude::*;

pub mod cell;
pub mod grid;
pub mod laws;
pub mod universe;

pub use cell::{next_cell, Cell};
pub use universe::{Universe, HEIGHT, WIDTH};
