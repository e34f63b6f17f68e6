//! Pixel-grid cross-sections of printed-circuit-board transmission lines,
//! with each material drawn in a fixed color, for a field solver.

pub mod color;
pub mod canvas;
pub mod error;
pub mod coplanar;
pub mod disk;
pub mod root;
pub mod via;
pub mod config;
pub mod image;
