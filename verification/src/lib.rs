//! Core of a terminal Game of Life visualizer: a double-buffered cell grid,
//! the generation-advance (tick) algorithm, and renderers that turn a grid
//! into a printable text frame.

pub mod game;
pub mod grid;
pub mod render;
