//! Colours, the pixel codec and the display surface.

pub mod codec;
pub mod color;
pub mod corner;
pub mod mapping;
pub mod pixels;
pub mod render;
pub mod screen;
pub mod surface;
pub mod text;
