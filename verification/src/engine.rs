//! What the drawing and windowing code decides in whole numbers.

pub mod mesh;
pub mod window;
