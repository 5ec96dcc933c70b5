//! Input devices: raw events and the touchscreen that reads them.

pub mod device;
pub mod touchscreen;
