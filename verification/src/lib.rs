//! Pong Wars: two teams fight over a square grid of cells.
//!
//! The library holds the parts of the game that are exact integer logic:
//! the RGB565 palette and its colour conversions, the grid of owned cells
//! with its scoring and cell-claiming rules, the LED-panel rendering of the
//! grid, and the control decisions of the simulator and firmware loops.
//! Ball motion is floating-point physics and lives with the embedder.

pub mod color;

pub mod convert;
pub mod grid;
pub mod render;
pub mod controls;

pub use color::{Palette, Team};
pub use grid::{Grid, GRID_SIZE, PIXEL_SIZE};
