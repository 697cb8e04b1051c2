//! The display controller's one-time configuration: the value written to the
//! mode register at boot. Computing the value is the library's job; the
//! single register write is device I/O and stays with the process around the
//! library.

use vstd::prelude::*;

verus! {

/// The direct-color bitmap drawing mode the canvas renders into.
pub const VIDEO_MODE_BITMAP: u8 = 3;

/// Register bit that makes the drawable background layer visible.
pub const DISPLAY_SHOW_BG2: u16 = 0x0400;

/// The mode-register value selecting video mode `video_mode`, with the
/// drawable background layer switched on when `show_bg2` holds. The mode
/// field occupies the low bits and the layer-enable flag is one dedicated
/// bit, so the value is also their plain sum.
pub fn display_control_value(video_mode: u8, show_bg2: bool) -> (r: u16)
    requires
        video_mode <= 5,
    ensures
        r == (video_mode as u16) | (if show_bg2 {
            DISPLAY_SHOW_BG2
        } else {
            0u16
        }),
        r == video_mode + (if show_bg2 {
            DISPLAY_SHOW_BG2 as int
        } else {
            0int
        }),
{
    let base: u16 = video_mode as u16;
    let mask: u16 = if show_bg2 {
        DISPLAY_SHOW_BG2
    } else {
        0
    };
    let r = base | mask;
    proof {
        assert(base | mask == base + mask) by (bit_vector)
            requires
                base <= 5 && (mask == 0x0400u16 || mask == 0u16),
        ;
    }
    r
}

} // verus!
