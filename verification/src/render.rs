//! Whole-frame rasters and frame pacing for the two rendering modes.
//!
//! The output raster is 512 by 256 RGB pixels, row-major. The scrolling
//! mode tiles its 256-pixel-wide image twice across the width, blacks out
//! two sloped regions at the bottom, and falls back to black where the
//! compositor defines no color. The sprite mode shows the composed bitmap
//! directly.

use vstd::prelude::*;
use crate::fetch::FetchColor;
use crate::fetch::get_color_spec;

verus! {

/// Width of the output raster in pixels.
pub const FRAME_WIDTH: usize = 512;

/// Height of the output raster in pixels.
pub const FRAME_HEIGHT: usize = 256;

/// The color the scrolling mode shows at output pixel (x, y): black in the
/// two sloped cut-out regions at the bottom, else the compositor's color at
/// (x mod 256, y), with black as the fallback where it defines none.
pub open spec fn animation_pixel_spec(fc: FetchColor, x: int, y: int) -> (u8, u8, u8) {
    if y >= 160 && x >= 256 && y + x / 2 > 356 {
        (0u8, 0u8, 0u8)
    } else if y >= 160 && x < 256 && y + x / 2 > 228 {
        (0u8, 0u8, 0u8)
    } else {
        match get_color_spec(fc, x % 256, y) {
            Some(c) => c,
            None => (0u8, 0u8, 0u8),
        }
    }
}

/// The color at one output pixel of the scrolling mode, as
/// `animation_pixel_spec` describes.
pub fn animation_pixel(fc: &FetchColor, x: usize, y: usize) -> (c: (u8, u8, u8))
    requires
        fc.wf(),
        x < 512,
        y < 256,
    ensures
        c == animation_pixel_spec(*fc, x as int, y as int),
{
    if y >= 160 && x >= 256 && y + x / 2 > 356 {
        (0, 0, 0)
    } else if y >= 160 && x < 256 && y + x / 2 > 228 {
        (0, 0, 0)
    } else {
        match fc.get_color(x % 256, y) {
            Some(c) => c,
            None => (0, 0, 0),
        }
    }
}

/// The full 512 by 256 raster of the scrolling mode at the current state,
/// row-major.
pub fn render_animation(fc: &FetchColor) -> (r: Vec<(u8, u8, u8)>)
    requires
        fc.wf(),
    ensures
        r@.len() == 131072,
        forall|i: int| 0 <= i < 131072 ==> r@[i] == animation_pixel_spec(*fc, i % 512, i / 512),
{
    let mut rgb: Vec<(u8, u8, u8)> = Vec::new();
    let mut i: usize = 0;
    while i < FRAME_WIDTH * FRAME_HEIGHT
        invariant
            i <= 131072,
            fc.wf(),
            rgb@.len() == i,
            forall|k: int| 0 <= k < i ==> rgb@[k] == animation_pixel_spec(*fc, k % 512, k / 512),
        decreases 131072 - i,
    {
        let x = i % FRAME_WIDTH;
        let y = i / FRAME_WIDTH;
        let c = animation_pixel(fc, x, y);
        rgb.push(c);
        i += 1;
    }
    rgb
}

/// The scrolling mode's pacing decision: elapsed wall-clock time, in
/// milliseconds, maps to a target frame at one frame per hundred
/// milliseconds. The animation stops after frame seven; otherwise the state
/// should be advanced exactly when the target lies ahead of the last
/// rendered frame.
pub open spec fn animation_target_spec(elapsed_ms: u64, last_frame: u64) -> Option<u64> {
    let frame_count = elapsed_ms / 100;
    if frame_count > 7 {
        None
    } else if frame_count > last_frame {
        Some(frame_count)
    } else {
        None
    }
}

/// The pacing decision, as `animation_target_spec` describes.
pub fn animation_target(elapsed_ms: u64, last_frame: u64) -> (r: Option<u64>)
    ensures
        r == animation_target_spec(elapsed_ms, last_frame),
{
    let frame_count = elapsed_ms / 100;
    if frame_count > 7 {
        None
    } else if frame_count > last_frame {
        Some(frame_count)
    } else {
        None
    }
}

/// Whether the sprite mode's showing time is over: it hands off to the
/// scrolling mode after ten seconds.
pub fn sprites_done(elapsed_secs: u64) -> (r: bool)
    ensures
        r == (elapsed_secs > 10),
{
    elapsed_secs > 10
}

} // verus!
