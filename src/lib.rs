//! A small 2D pixel-buffer compositor and a tick-driven sprite animation model.

mod grid;
pub mod animations;
pub mod decode;
pub mod image;
pub mod types;
