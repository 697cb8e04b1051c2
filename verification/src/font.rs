//! The bitmap font: an 8x8 glyph for each digit, each uppercase letter and
//! the space, and the text-layout routine that walks a string left to right
//! with a fixed 8-pixel advance. Text may sit arbitrarily close to the
//! screen edges, so this is the one component that clips its own pixels.

use vstd::prelude::*;

verus! {

use crate::canvas::{
    canvas_wf, lemma_draw_pixel_read_back, on_screen, spec_pixel, video3_draw_pixel,
    FramebufferCanvas,
};
use crate::{SCREEN_H, SCREEN_W};

/// `ch` is one of the characters the font has a glyph for: `0`-`9`,
/// `A`-`Z`, or the space.
pub open spec fn glyph_supported(ch: u8) -> bool {
    (48 <= ch <= 57) || (65 <= ch <= 90) || ch == 32
}

/// The 8x8 glyph of `ch` packed into one word: row 0 is the most
/// significant byte, and within a row the most significant bit is the
/// leftmost column. Characters without a glyph map to the empty bitmap.
pub open spec fn spec_glyph_bits(ch: u8) -> u64 {
    match ch {
        48u8 => 0x3C666E7666663C00u64,
        49u8 => 0x1838181818187E00u64,
        50u8 => 0x3C66060C30607E00u64,
        51u8 => 0x3C66061C06663C00u64,
        52u8 => 0x0C1C3C6C7E0C1E00u64,
        53u8 => 0x7E607C0606663C00u64,
        54u8 => 0x1C30607C66663C00u64,
        55u8 => 0x7E060C1830303000u64,
        56u8 => 0x3C66663C66663C00u64,
        57u8 => 0x3C66663E060C3800u64,
        65u8 => 0x182442427E424200u64,
        66u8 => 0x7C42427C42427C00u64,
        67u8 => 0x3C42404040423C00u64,
        68u8 => 0x7844424242447800u64,
        69u8 => 0x7E40407C40407E00u64,
        70u8 => 0x7E40407C40404000u64,
        71u8 => 0x3C42404E42423C00u64,
        72u8 => 0x4242427E42424200u64,
        73u8 => 0x3C18181818183C00u64,
        74u8 => 0x1E08080848483000u64,
        75u8 => 0x4244487048444200u64,
        76u8 => 0x4040404040407E00u64,
        77u8 => 0x42665A4242424200u64,
        78u8 => 0x4262524A46424200u64,
        79u8 => 0x3C42424242423C00u64,
        80u8 => 0x7C42427C40404000u64,
        81u8 => 0x3C4242424A443A00u64,
        82u8 => 0x7C42427C48444200u64,
        83u8 => 0x3E40403C02027C00u64,
        84u8 => 0x7E18181818181800u64,
        85u8 => 0x4242424242423C00u64,
        86u8 => 0x4242422424181800u64,
        87u8 => 0x42425A5A66664200u64,
        88u8 => 0x4224181818244200u64,
        89u8 => 0x4224181818181800u64,
        90u8 => 0x7E04081820407E00u64,
        32u8 => 0x0000000000000000u64,
        _ => 0u64,
    }
}

/// The packed glyph of `ch`, looked up at run time.
pub fn glyph_bits(ch: u8) -> (g: u64)
    ensures
        g == spec_glyph_bits(ch),
{
    match ch {
        48u8 => 0x3C666E7666663C00u64,
        49u8 => 0x1838181818187E00u64,
        50u8 => 0x3C66060C30607E00u64,
        51u8 => 0x3C66061C06663C00u64,
        52u8 => 0x0C1C3C6C7E0C1E00u64,
        53u8 => 0x7E607C0606663C00u64,
        54u8 => 0x1C30607C66663C00u64,
        55u8 => 0x7E060C1830303000u64,
        56u8 => 0x3C66663C66663C00u64,
        57u8 => 0x3C66663E060C3800u64,
        65u8 => 0x182442427E424200u64,
        66u8 => 0x7C42427C42427C00u64,
        67u8 => 0x3C42404040423C00u64,
        68u8 => 0x7844424242447800u64,
        69u8 => 0x7E40407C40407E00u64,
        70u8 => 0x7E40407C40404000u64,
        71u8 => 0x3C42404E42423C00u64,
        72u8 => 0x4242427E42424200u64,
        73u8 => 0x3C18181818183C00u64,
        74u8 => 0x1E08080848483000u64,
        75u8 => 0x4244487048444200u64,
        76u8 => 0x4040404040407E00u64,
        77u8 => 0x42665A4242424200u64,
        78u8 => 0x4262524A46424200u64,
        79u8 => 0x3C42424242423C00u64,
        80u8 => 0x7C42427C40404000u64,
        81u8 => 0x3C4242424A443A00u64,
        82u8 => 0x7C42427C48444200u64,
        83u8 => 0x3E40403C02027C00u64,
        84u8 => 0x7E18181818181800u64,
        85u8 => 0x4242424242423C00u64,
        86u8 => 0x4242422424181800u64,
        87u8 => 0x42425A5A66664200u64,
        88u8 => 0x4224181818244200u64,
        89u8 => 0x4224181818181800u64,
        90u8 => 0x7E04081820407E00u64,
        32u8 => 0x0000000000000000u64,
        _ => 0u64,
    }
}

/// Bit `(col, row)` of a packed glyph is set.
pub open spec fn glyph_bit(g: u64, col: int, row: int) -> bool {
    ((g >> (((7 - row) * 8 + (7 - col)) as u64)) & 1u64) == 1u64
}

/// The glyph of `ch`, drawn with its top-left corner at `(x, y)`, paints
/// pixel `(i, j)`.
pub open spec fn glyph_covers(ch: u8, x: int, y: int, i: int, j: int) -> bool {
    x <= i < x + 8 && y <= j < y + 8 && glyph_bit(spec_glyph_bits(ch), i - x, j - y)
}

/// A character without a glyph paints nothing: its bitmap is empty.
pub proof fn lemma_unsupported_blank(ch: u8, col: int, row: int)
    requires
        !glyph_supported(ch),
        0 <= col < 8,
        0 <= row < 8,
    ensures
        spec_glyph_bits(ch) == 0u64,
        !glyph_bit(spec_glyph_bits(ch), col, row),
{
    let s = (((7 - row) * 8 + (7 - col)) as u64);
    assert(((0u64 >> s) & 1u64) != 1u64) by (bit_vector);
}

/// Render the glyph of `ch` with its top-left corner at `(x, y)`: every
/// pixel under a set glyph bit that falls on screen takes `color`; every
/// other cell keeps its value. Characters without a glyph are a no-op.
pub fn draw_char(fb: &mut FramebufferCanvas, ch: u8, x: i32, y: i32, color: u16)
    requires
        canvas_wf(old(fb)@),
    ensures
        canvas_wf(final(fb)@),
        forall|i: int, j: int|
            on_screen(i, j) ==> spec_pixel(final(fb)@, i, j) == (if glyph_covers(
                ch,
                x as int,
                y as int,
                i,
                j,
            ) {
                color
            } else {
                spec_pixel(old(fb)@, i, j)
            }),
{
    if x <= -8 || x >= SCREEN_W || y <= -8 || y >= SCREEN_H {
        // The whole 8x8 box lies off screen; nothing can be painted.
        return ;
    }
    let g = glyph_bits(ch);
    let mut n: usize = 0;
    while n < 64
        invariant
            n <= 64,
            canvas_wf(fb@),
            g == spec_glyph_bits(ch),
            -8 < x < SCREEN_W,
            -8 < y < SCREEN_H,
            forall|i: int, j: int|
                on_screen(i, j) ==> spec_pixel(fb@, i, j) == (if glyph_covers(
                    ch,
                    x as int,
                    y as int,
                    i,
                    j,
                ) && (j - y) * 8 + (i - x) < n {
                    color
                } else {
                    spec_pixel(old(fb)@, i, j)
                }),
        decreases 64 - n,
    {
        let row: usize = n / 8;
        let col: usize = n % 8;
        let shift: u64 = (63 - n) as u64;
        let set = ((g >> shift) & 1u64) == 1u64;
        let px: i32 = x + col as i32;
        let py: i32 = y + row as i32;
        let do_draw = set && px >= 0 && px < SCREEN_W && py >= 0 && py < SCREEN_H;
        let ghost pre = fb@;
        if do_draw {
            video3_draw_pixel(fb, px, py, color);
        }
        proof {
            let xx = x as int;
            let yy = y as int;
            let r = row as int;
            let c = col as int;
            assert(8 * r + c == n as int);
            assert((7 - r) * 8 + (7 - c) == 63 - n as int);
            assert(set == glyph_bit(g, c, r));
            if do_draw {
                lemma_draw_pixel_read_back(pre, px as int, py as int, color);
            }
            assert forall|i: int, j: int| on_screen(i, j) implies spec_pixel(fb@, i, j) == (
            if glyph_covers(ch, xx, yy, i, j) && (j - yy) * 8 + (i - xx) < n + 1 {
                color
            } else {
                spec_pixel(old(fb)@, i, j)
            }) by {
                if glyph_covers(ch, xx, yy, i, j) && (j - yy) * 8 + (i - xx) == n {
                    // Bit positions are unique within the box, so this is
                    // exactly the pixel of the bit just handled.
                    assert(j - yy == r && i - xx == c);
                    assert(i == px as int && j == py as int);
                }
                if do_draw && i == px as int && j == py as int {
                    assert(spec_pixel(fb@, i, j) == color);
                    assert(glyph_covers(ch, xx, yy, i, j));
                } else {
                    assert(spec_pixel(fb@, i, j) == spec_pixel(pre, i, j));
                }
            }
        }
        n = n + 1;
    }
}

/// Character `k` of the text, laid out with the fixed 8-pixel advance from
/// `(x, y)`, paints pixel `(i, j)`.
pub open spec fn char_covers(t: Seq<u8>, k: int, x: int, y: int, i: int, j: int) -> bool {
    glyph_covers(t[k], x + 8 * k, y, i, j)
}

/// Some character of the text paints pixel `(i, j)`.
pub open spec fn text_covers(t: Seq<u8>, x: int, y: int, i: int, j: int) -> bool {
    exists|k: int| 0 <= k < t.len() && #[trigger] char_covers(t, k, x, y, i, j)
}

/// `post` is `pre` with the text drawn at `(x, y)`: every on-screen pixel
/// some glyph paints holds the text color, and every other cell is
/// untouched.
pub open spec fn text_rendered(
    pre: Seq<u16>,
    post: Seq<u16>,
    t: Seq<u8>,
    x: int,
    y: int,
    color: u16,
) -> bool {
    &&& canvas_wf(pre)
    &&& canvas_wf(post)
    &&& forall|i: int, j: int|
        on_screen(i, j) ==> spec_pixel(post, i, j) == (if text_covers(t, x, y, i, j) {
            color
        } else {
            spec_pixel(pre, i, j)
        })
}

/// Render `text` left to right from `(x, y)`, one glyph per byte, each
/// advanced exactly 8 pixels from the one before; pixels off the screen are
/// clipped, and bytes without a glyph draw nothing but still advance.
pub fn draw_text(fb: &mut FramebufferCanvas, text: &[u8], x: i32, y: i32, color: u16)
    requires
        canvas_wf(old(fb)@),
        x + 8 * text@.len() <= i32::MAX,
    ensures
        text_rendered(old(fb)@, final(fb)@, text@, x as int, y as int, color),
{
    let len = text.len();
    let mut k: usize = 0;
    let mut cx: i32 = x;
    while k < len
        invariant
            k <= len,
            len == text@.len(),
            cx as int == x as int + 8 * (k as int),
            x as int + 8 * (len as int) <= i32::MAX,
            canvas_wf(fb@),
            forall|i: int, j: int|
                on_screen(i, j) ==> spec_pixel(fb@, i, j) == (if text_covers(
                    text@.take(k as int),
                    x as int,
                    y as int,
                    i,
                    j,
                ) {
                    color
                } else {
                    spec_pixel(old(fb)@, i, j)
                }),
        decreases len - k,
    {
        let ghost pre = fb@;
        let ch = text[k];
        draw_char(fb, ch, cx, y, color);
        proof {
            let xx = x as int;
            let yy = y as int;
            let kk = k as int;
            let tk = text@.take(kk);
            let tk1 = text@.take(kk + 1);
            assert forall|i: int, j: int| on_screen(i, j) implies spec_pixel(fb@, i, j) == (
            if text_covers(tk1, xx, yy, i, j) {
                color
            } else {
                spec_pixel(old(fb)@, i, j)
            }) by {
                if glyph_covers(text@[kk], xx + 8 * kk, yy, i, j) {
                    assert(char_covers(tk1, kk, xx, yy, i, j));
                    assert(text_covers(tk1, xx, yy, i, j));
                    assert(spec_pixel(fb@, i, j) == color);
                } else {
                    assert(spec_pixel(fb@, i, j) == spec_pixel(pre, i, j));
                    if text_covers(tk, xx, yy, i, j) {
                        let k0 = choose|k0: int|
                            0 <= k0 < tk.len() && #[trigger] char_covers(tk, k0, xx, yy, i, j);
                        assert(char_covers(tk1, k0, xx, yy, i, j));
                        assert(text_covers(tk1, xx, yy, i, j));
                    } else {
                        if text_covers(tk1, xx, yy, i, j) {
                            let k0 = choose|k0: int|
                                0 <= k0 < tk1.len() && #[trigger] char_covers(
                                    tk1,
                                    k0,
                                    xx,
                                    yy,
                                    i,
                                    j,
                                );
                            if k0 == kk {
                                assert(glyph_covers(text@[kk], xx + 8 * kk, yy, i, j));
                                assert(false);
                            } else {
                                assert(char_covers(tk, k0, xx, yy, i, j));
                                assert(text_covers(tk, xx, yy, i, j));
                                assert(false);
                            }
                        }
                    }
                }
            }
        }
        cx = cx + 8;
        k = k + 1;
    }
    proof {
        assert(text@.take(len as int) =~= text@);
    }
}

/// Inside the k-th character's 8x8 box, only that character can paint: the
/// fixed 8-pixel advance makes the character boxes pairwise disjoint.
pub proof fn lemma_text_box_isolated(t: Seq<u8>, x: int, y: int, k: int, i: int, j: int)
    requires
        0 <= k < t.len(),
        x + 8 * k <= i < x + 8 * k + 8,
    ensures
        text_covers(t, x, y, i, j) == char_covers(t, k, x, y, i, j),
{
    if char_covers(t, k, x, y, i, j) {
        assert(text_covers(t, x, y, i, j));
    }
    if text_covers(t, x, y, i, j) {
        let k0 = choose|k0: int| 0 <= k0 < t.len() && #[trigger] char_covers(t, k0, x, y, i, j);
        assert(x + 8 * k0 <= i < x + 8 * k0 + 8);
        assert(k0 == k);
    }
}

/// Round trip: on a canvas where a text has been rendered, each pixel of
/// the k-th character's box reproduces that character's glyph bit pattern
/// exactly - the cell at `(x + 8k + col, y + row)` holds the text color
/// where the glyph bit is set and the prior canvas color where it is not.
/// In particular character k's box begins exactly 8 pixels to the right of
/// character k - 1's.
pub proof fn lemma_text_round_trip(
    pre: Seq<u16>,
    post: Seq<u16>,
    t: Seq<u8>,
    x: int,
    y: int,
    color: u16,
    k: int,
    col: int,
    row: int,
)
    requires
        text_rendered(pre, post, t, x, y, color),
        0 <= k < t.len(),
        0 <= col < 8,
        0 <= row < 8,
        on_screen(x + 8 * k + col, y + row),
    ensures
        spec_pixel(post, x + 8 * k + col, y + row) == (if glyph_bit(
            spec_glyph_bits(t[k]),
            col,
            row,
        ) {
            color
        } else {
            spec_pixel(pre, x + 8 * k + col, y + row)
        }),
{
    let i = x + 8 * k + col;
    let j = y + row;
    lemma_text_box_isolated(t, x, y, k, i, j);
    assert(char_covers(t, k, x, y, i, j) == glyph_bit(spec_glyph_bits(t[k]), col, row));
}

} // verus!
