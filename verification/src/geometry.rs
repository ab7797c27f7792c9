//! Panel geometry and frame-buffer indexing.

use vstd::prelude::*;

verus! {

/// Width of the RK043FN48H panel in pixels.
pub const LCD_WIDTH: u16 = 480;

/// Height of the RK043FN48H panel in pixels.
pub const LCD_HEIGHT: u16 = 272;

/// Number of pixels in one RGB565 frame buffer: 480 * 272.
pub const FB_SIZE: usize = 130560;

/// Position in the frame buffer of pixel `(x, y)`: rows are stored one after
/// the other, `LCD_WIDTH` pixels each.
pub open spec fn pixel_index(x: int, y: int) -> int {
    y * 480 + x
}

} // verus!
