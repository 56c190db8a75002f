//! Core of a raster paint tool: pixel buffers, the brush stroke engine,
//! the screen/canvas view transform, scanline flood fill, and the
//! focus/dirty-state logic of the two editors.

pub mod color;
pub mod image;
pub mod flood_fill;
pub mod transform;
pub mod geometry;
pub mod brush;
pub mod palette;
pub mod frame;
pub mod editor;
pub mod session;
