//! Direct-memory rendering and allocator-bootstrap subsystem for a small
//! fixed-resolution device: a bounds-disciplined framebuffer canvas, an 8x8
//! bitmap font with its text layout, a sample plotter with vertical clipping
//! and automatic scaling, a one-shot heap arena, an interrupt-mask critical
//! section, and the display-mode register value computed at boot.

use vstd::prelude::*;

pub mod arena;
pub mod canvas;
pub mod display;
pub mod font;
pub mod interrupts;
pub mod plot;

verus! {

/// Width of the drawable pixel grid, in cells.
pub const SCREEN_W: i32 = 240;

/// Height of the drawable pixel grid, in cells.
pub const SCREEN_H: i32 = 160;

/// Packed-color black, the cleared background.
pub const COLOR_BLACK: u16 = 0;

/// Packed-color white, used for headline text.
pub const COLOR_WHITE: u16 = 0x7FFF;

/// Packed-color red: the prediction trace and the alarm fill.
pub const COLOR_RED: u16 = 0x001F;

/// Packed-color green: the ground-truth trace.
pub const COLOR_GREEN: u16 = 0x03E0;

} // verus!
