//! A dense two-dimensional grid stored row-major in one contiguous buffer.

pub mod grid;
pub mod laws;
pub mod offsets;

pub use crate::grid::Grid;
