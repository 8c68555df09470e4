//! Arranges short text cells into a compact grid of aligned columns for
//! monospaced display, the way directory listings pack names into a terminal.
//!
//! The layout is solved on cell widths alone and then rendered to text; every
//! function states what it computes over mathematical models of its data.

pub mod arith;
pub mod measure;
pub mod options;
pub mod cell;
pub mod dimensions;
pub mod solver;
pub mod render;
pub mod grid;

pub use crate::arith::div_ceil;
pub use crate::cell::Cell;
pub use crate::dimensions::Dimensions;
pub use crate::grid::Grid;
pub use crate::options::{Direction, Filling, GridOptions};
