//! Conway's Game of Life on a sparse grid that is bounded only by the
//! range of its coordinates.

pub mod generation;
pub mod grid;
pub mod life;
pub mod neighbors;
pub mod render;
