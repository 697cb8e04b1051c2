use esn_on_gba::canvas::{panic_screen, video3_clear_to, video3_draw_pixel, FramebufferCanvas};
use esn_on_gba::{COLOR_BLACK, COLOR_GREEN, COLOR_RED, COLOR_WHITE, SCREEN_H, SCREEN_W};

#[test]
fn new_canvas_is_black() {
    let fb = FramebufferCanvas::new();
    for y in 0..SCREEN_H {
        for x in 0..SCREEN_W {
            assert_eq!(fb.get_pixel(x, y), COLOR_BLACK);
        }
    }
}

#[test]
fn draw_pixel_read_back() {
    let mut fb = FramebufferCanvas::new();
    video3_draw_pixel(&mut fb, 5, 7, COLOR_WHITE);
    assert_eq!(fb.get_pixel(5, 7), COLOR_WHITE);
    // Neighbors are untouched.
    assert_eq!(fb.get_pixel(4, 7), COLOR_BLACK);
    assert_eq!(fb.get_pixel(6, 7), COLOR_BLACK);
    assert_eq!(fb.get_pixel(5, 6), COLOR_BLACK);
    assert_eq!(fb.get_pixel(5, 8), COLOR_BLACK);
    // The row-major neighbors in the backing store are untouched too.
    assert_eq!(fb.get_pixel(SCREEN_W - 1, 6), COLOR_BLACK);
    assert_eq!(fb.get_pixel(0, 8), COLOR_BLACK);
}

#[test]
fn draw_pixel_corners() {
    let mut fb = FramebufferCanvas::new();
    video3_draw_pixel(&mut fb, 0, 0, COLOR_GREEN);
    video3_draw_pixel(&mut fb, SCREEN_W - 1, 0, COLOR_GREEN);
    video3_draw_pixel(&mut fb, 0, SCREEN_H - 1, COLOR_GREEN);
    video3_draw_pixel(&mut fb, SCREEN_W - 1, SCREEN_H - 1, COLOR_GREEN);
    assert_eq!(fb.get_pixel(0, 0), COLOR_GREEN);
    assert_eq!(fb.get_pixel(SCREEN_W - 1, 0), COLOR_GREEN);
    assert_eq!(fb.get_pixel(0, SCREEN_H - 1), COLOR_GREEN);
    assert_eq!(fb.get_pixel(SCREEN_W - 1, SCREEN_H - 1), COLOR_GREEN);
    let mut lit = 0;
    for y in 0..SCREEN_H {
        for x in 0..SCREEN_W {
            if fb.get_pixel(x, y) != COLOR_BLACK {
                lit += 1;
            }
        }
    }
    assert_eq!(lit, 4);
}

#[test]
fn clear_covers_every_cell() {
    let mut fb = FramebufferCanvas::new();
    video3_draw_pixel(&mut fb, 10, 10, COLOR_WHITE);
    video3_clear_to(&mut fb, COLOR_GREEN);
    // Full coverage, with no off-by-one gap at the last row or column.
    for y in 0..SCREEN_H {
        for x in 0..SCREEN_W {
            assert_eq!(fb.get_pixel(x, y), COLOR_GREEN);
        }
    }
}

#[test]
fn panic_screen_fills_alarm_color() {
    let mut fb = FramebufferCanvas::new();
    video3_draw_pixel(&mut fb, 100, 100, COLOR_WHITE);
    panic_screen(&mut fb);
    for y in 0..SCREEN_H {
        for x in 0..SCREEN_W {
            assert_eq!(fb.get_pixel(x, y), COLOR_RED);
        }
    }
}
