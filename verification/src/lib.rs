//! Rendering for small embedded displays: 2D drawing straight into a mapped
//! framebuffer in a packed 16-bit colour format, with alpha blending of shapes,
//! text and bitmaps, and decoding of touch input.

pub mod bresenham;
pub mod gfx;
pub mod input;
pub mod rainbow;

use vstd::prelude::*;

verus! {

/// The width of the display in pixels.
pub const SCREEN_W: usize = 800;

/// The height of the display in pixels.
pub const SCREEN_H: usize = 480;

/// The size of the display's buffer in bytes: two for each pixel.
pub const BUFFER_SIZE: usize = SCREEN_W * SCREEN_H * 2;

/// The size of one raw input event in bytes.
pub const EVENT_SIZE: usize = 16;

/// The number of raw input events that are read at once.
pub const EVENT_BUFFER_LEN: usize = 16;

/// The type of an event that ends a report.
pub const EV_SYN: u8 = 0;

/// The type of an event that brings a position or a touch.
pub const EV_KEY: u8 = 3;

/// The code of an event that brings the x of a touch.
pub const ABSOLUTE_X_POS: u8 = 0;

/// The code of an event that brings the y of a touch.
pub const ABSOLUTE_Y_POS: u8 = 1;

/// The code of an event that says that a touch began.
pub const TOUCHES_BEGAN: u8 = 53;

/// The code of an event that says that a touch ended.
pub const TOUCHES_ENDED: u8 = 57;

/// Finds the touchscreen hidden amongst all input devices. Returns a path to
/// it: the fourth event device.
pub fn find_touchscreen() -> (path: Option<String>)
    ensures
        path is Some,
        path->Some_0@ == "/dev/input/event3"@,
{
    Some("/dev/input/event3".to_owned())
}

} // verus!
