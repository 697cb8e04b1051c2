use esn_on_gba::canvas::FramebufferCanvas;
use esn_on_gba::font::{draw_char, draw_text};
use esn_on_gba::{COLOR_BLACK, COLOR_WHITE, SCREEN_H, SCREEN_W};

/// The 8x8 row bytes of every supported character: the most significant bit
/// of a row byte is the leftmost column.
fn expected_rows(ch: u8) -> Option<[u8; 8]> {
    match ch {
        b'0' => Some([0x3C, 0x66, 0x6E, 0x76, 0x66, 0x66, 0x3C, 0x00]),
        b'1' => Some([0x18, 0x38, 0x18, 0x18, 0x18, 0x18, 0x7E, 0x00]),
        b'2' => Some([0x3C, 0x66, 0x06, 0x0C, 0x30, 0x60, 0x7E, 0x00]),
        b'3' => Some([0x3C, 0x66, 0x06, 0x1C, 0x06, 0x66, 0x3C, 0x00]),
        b'4' => Some([0x0C, 0x1C, 0x3C, 0x6C, 0x7E, 0x0C, 0x1E, 0x00]),
        b'5' => Some([0x7E, 0x60, 0x7C, 0x06, 0x06, 0x66, 0x3C, 0x00]),
        b'6' => Some([0x1C, 0x30, 0x60, 0x7C, 0x66, 0x66, 0x3C, 0x00]),
        b'7' => Some([0x7E, 0x06, 0x0C, 0x18, 0x30, 0x30, 0x30, 0x00]),
        b'8' => Some([0x3C, 0x66, 0x66, 0x3C, 0x66, 0x66, 0x3C, 0x00]),
        b'9' => Some([0x3C, 0x66, 0x66, 0x3E, 0x06, 0x0C, 0x38, 0x00]),
        b'A' => Some([0x18, 0x24, 0x42, 0x42, 0x7E, 0x42, 0x42, 0x00]),
        b'B' => Some([0x7C, 0x42, 0x42, 0x7C, 0x42, 0x42, 0x7C, 0x00]),
        b'C' => Some([0x3C, 0x42, 0x40, 0x40, 0x40, 0x42, 0x3C, 0x00]),
        b'D' => Some([0x78, 0x44, 0x42, 0x42, 0x42, 0x44, 0x78, 0x00]),
        b'E' => Some([0x7E, 0x40, 0x40, 0x7C, 0x40, 0x40, 0x7E, 0x00]),
        b'F' => Some([0x7E, 0x40, 0x40, 0x7C, 0x40, 0x40, 0x40, 0x00]),
        b'G' => Some([0x3C, 0x42, 0x40, 0x4E, 0x42, 0x42, 0x3C, 0x00]),
        b'H' => Some([0x42, 0x42, 0x42, 0x7E, 0x42, 0x42, 0x42, 0x00]),
        b'I' => Some([0x3C, 0x18, 0x18, 0x18, 0x18, 0x18, 0x3C, 0x00]),
        b'J' => Some([0x1E, 0x08, 0x08, 0x08, 0x48, 0x48, 0x30, 0x00]),
        b'K' => Some([0x42, 0x44, 0x48, 0x70, 0x48, 0x44, 0x42, 0x00]),
        b'L' => Some([0x40, 0x40, 0x40, 0x40, 0x40, 0x40, 0x7E, 0x00]),
        b'M' => Some([0x42, 0x66, 0x5A, 0x42, 0x42, 0x42, 0x42, 0x00]),
        b'N' => Some([0x42, 0x62, 0x52, 0x4A, 0x46, 0x42, 0x42, 0x00]),
        b'O' => Some([0x3C, 0x42, 0x42, 0x42, 0x42, 0x42, 0x3C, 0x00]),
        b'P' => Some([0x7C, 0x42, 0x42, 0x7C, 0x40, 0x40, 0x40, 0x00]),
        b'Q' => Some([0x3C, 0x42, 0x42, 0x42, 0x4A, 0x44, 0x3A, 0x00]),
        b'R' => Some([0x7C, 0x42, 0x42, 0x7C, 0x48, 0x44, 0x42, 0x00]),
        b'S' => Some([0x3E, 0x40, 0x40, 0x3C, 0x02, 0x02, 0x7C, 0x00]),
        b'T' => Some([0x7E, 0x18, 0x18, 0x18, 0x18, 0x18, 0x18, 0x00]),
        b'U' => Some([0x42, 0x42, 0x42, 0x42, 0x42, 0x42, 0x3C, 0x00]),
        b'V' => Some([0x42, 0x42, 0x42, 0x24, 0x24, 0x18, 0x18, 0x00]),
        b'W' => Some([0x42, 0x42, 0x5A, 0x5A, 0x66, 0x66, 0x42, 0x00]),
        b'X' => Some([0x42, 0x24, 0x18, 0x18, 0x18, 0x24, 0x42, 0x00]),
        b'Y' => Some([0x42, 0x24, 0x18, 0x18, 0x18, 0x18, 0x18, 0x00]),
        b'Z' => Some([0x7E, 0x04, 0x08, 0x18, 0x20, 0x40, 0x7E, 0x00]),
        b' ' => Some([0x00; 8]),
        _ => None,
    }
}

/// Check that the 8x8 box at (x, y) holds exactly the glyph of `ch` in
/// `color` over black, and that the rest of the canvas is black.
fn check_single_glyph(fb: &FramebufferCanvas, ch: u8, x: i32, y: i32, color: u16) {
    let rows = expected_rows(ch).unwrap();
    for py in 0..SCREEN_H {
        for px in 0..SCREEN_W {
            let inside = px >= x && px < x + 8 && py >= y && py < y + 8;
            let expected = if inside {
                let bit = (rows[(py - y) as usize] >> (7 - (px - x))) & 1;
                if bit == 1 {
                    color
                } else {
                    COLOR_BLACK
                }
            } else {
                COLOR_BLACK
            };
            assert_eq!(fb.get_pixel(px, py), expected, "char {} at ({}, {})", ch, px, py);
        }
    }
}

#[test]
fn every_supported_glyph_round_trips() {
    for &ch in b"0123456789ABCDEFGHIJKLMNOPQRSTUVWXYZ " {
        let mut fb = FramebufferCanvas::new();
        draw_char(&mut fb, ch, 16, 24, COLOR_WHITE);
        check_single_glyph(&fb, ch, 16, 24, COLOR_WHITE);
    }
}

#[test]
fn text_advances_eight_pixels() {
    // "A0" at the origin: glyph A occupies columns 0-7, the digit 0 glyph
    // starts exactly 8 pixels to the right.
    let mut fb = FramebufferCanvas::new();
    draw_text(&mut fb, b"A0", 0, 0, COLOR_WHITE);
    let a = expected_rows(b'A').unwrap();
    let zero = expected_rows(b'0').unwrap();
    for row in 0..8 {
        for col in 0..8 {
            let a_bit = (a[row as usize] >> (7 - col)) & 1;
            let z_bit = (zero[row as usize] >> (7 - col)) & 1;
            let a_expect = if a_bit == 1 { COLOR_WHITE } else { COLOR_BLACK };
            let z_expect = if z_bit == 1 { COLOR_WHITE } else { COLOR_BLACK };
            assert_eq!(fb.get_pixel(col, row), a_expect);
            assert_eq!(fb.get_pixel(8 + col, row), z_expect);
        }
    }
    // Nothing beyond the two boxes.
    for py in 0..SCREEN_H {
        for px in 0..SCREEN_W {
            if px >= 16 || py >= 8 {
                assert_eq!(fb.get_pixel(px, py), COLOR_BLACK);
            }
        }
    }
}

#[test]
fn unsupported_character_skipped_with_advance() {
    // '?' has no glyph: it draws nothing but still advances, so the A of
    // "?A" starts at column 8.
    let mut fb = FramebufferCanvas::new();
    draw_text(&mut fb, b"?A", 0, 0, COLOR_WHITE);
    let a = expected_rows(b'A').unwrap();
    for row in 0..8 {
        for col in 0..8 {
            assert_eq!(fb.get_pixel(col, row), COLOR_BLACK);
            let bit = (a[row as usize] >> (7 - col)) & 1;
            let expect = if bit == 1 { COLOR_WHITE } else { COLOR_BLACK };
            assert_eq!(fb.get_pixel(8 + col, row), expect);
        }
    }
}

#[test]
fn text_clipped_at_screen_edges() {
    let mut fb = FramebufferCanvas::new();
    // Partially off the right/bottom corner, and off the left edge: no
    // out-of-bounds write, and the visible part matches the glyph.
    draw_text(&mut fb, b"T", SCREEN_W - 4, SCREEN_H - 4, COLOR_WHITE);
    draw_text(&mut fb, b"T", -4, 40, COLOR_WHITE);
    let t = expected_rows(b'T').unwrap();
    for row in 0..4 {
        for col in 0..4 {
            let bit = (t[row as usize] >> (7 - col)) & 1;
            let expect = if bit == 1 { COLOR_WHITE } else { COLOR_BLACK };
            assert_eq!(fb.get_pixel(SCREEN_W - 4 + col, SCREEN_H - 4 + row), expect);
        }
    }
    for row in 0..8 {
        for col in 4..8 {
            let bit = (t[row as usize] >> (7 - col)) & 1;
            let expect = if bit == 1 { COLOR_WHITE } else { COLOR_BLACK };
            assert_eq!(fb.get_pixel(col - 4, 40 + row), expect);
        }
    }
}

#[test]
fn empty_text_is_a_no_op() {
    let mut fb = FramebufferCanvas::new();
    draw_text(&mut fb, b"", 50, 50, COLOR_WHITE);
    for y in 0..SCREEN_H {
        for x in 0..SCREEN_W {
            assert_eq!(fb.get_pixel(x, y), COLOR_BLACK);
        }
    }
}
