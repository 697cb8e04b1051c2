//! The framebuffer canvas: the one abstraction allowed to touch the pixel
//! store. Every write goes through a bounds-checked cell update, so no caller
//! can reach memory outside the `SCREEN_W x SCREEN_H` grid.

use vstd::prelude::*;

verus! {

use crate::{COLOR_RED, SCREEN_H, SCREEN_W};

/// Row-major cell index of pixel `(x, y)`.
pub open spec fn pixel_index(x: int, y: int) -> int {
    y * (SCREEN_W as int) + x
}

/// `(x, y)` names a cell of the grid.
pub open spec fn on_screen(x: int, y: int) -> bool {
    0 <= x < SCREEN_W && 0 <= y < SCREEN_H
}

/// The color held by cell `(x, y)` of a canvas state `v`.
pub open spec fn spec_pixel(v: Seq<u16>, x: int, y: int) -> u16 {
    v[pixel_index(x, y)]
}

/// A canvas state with one pixel overwritten.
pub open spec fn spec_draw(v: Seq<u16>, x: int, y: int, color: u16) -> Seq<u16> {
    v.update(pixel_index(x, y), color)
}

/// A full canvas state holds exactly one cell per screen pixel.
pub open spec fn canvas_wf(v: Seq<u16>) -> bool {
    v.len() == SCREEN_W * SCREEN_H
}

/// The pixel grid of the display, one packed color per cell, row-major.
/// The backing store is owned by this type alone; writes stay inside the
/// grid because `video3_draw_pixel` demands on-screen coordinates.
pub struct FramebufferCanvas {
    cells: Vec<u16>,
}

impl View for FramebufferCanvas {
    type V = Seq<u16>;

    closed spec fn view(&self) -> Seq<u16> {
        self.cells@
    }
}

/// Distinct on-screen pixels occupy distinct cells of the row-major store.
pub proof fn lemma_pixel_index_injective(x1: int, y1: int, x2: int, y2: int)
    requires
        on_screen(x1, y1),
        on_screen(x2, y2),
        pixel_index(x1, y1) == pixel_index(x2, y2),
    ensures
        x1 == x2,
        y1 == y2,
{
    assert((y1 - y2) * (SCREEN_W as int) == x2 - x1);
    if y1 != y2 {
        if y1 > y2 {
            assert((y1 - y2) * (SCREEN_W as int) >= SCREEN_W as int);
        } else {
            assert((y2 - y1) * (SCREEN_W as int) >= SCREEN_W as int);
        }
        assert(false);
    }
}

/// Every on-screen pixel's cell index lies inside the store.
pub proof fn lemma_pixel_index_in_range(x: int, y: int)
    requires
        on_screen(x, y),
    ensures
        0 <= pixel_index(x, y) < SCREEN_W * SCREEN_H,
{
    assert(y * (SCREEN_W as int) <= (SCREEN_H - 1) * (SCREEN_W as int));
}

impl FramebufferCanvas {
    /// A fresh canvas, every cell black.
    pub fn new() -> (fb: Self)
        ensures
            canvas_wf(fb@),
            forall|x: int, y: int| on_screen(x, y) ==> spec_pixel(fb@, x, y) == 0u16,
    {
        let mut cells: Vec<u16> = Vec::new();
        let n: usize = (SCREEN_W * SCREEN_H) as usize;
        while cells.len() < n
            invariant
                cells@.len() <= n,
                n == SCREEN_W * SCREEN_H,
                forall|k: int| 0 <= k < cells@.len() ==> cells@[k] == 0u16,
            decreases n - cells@.len(),
        {
            cells.push(0u16);
        }
        let fb = FramebufferCanvas { cells };
        proof {
            assert forall|x: int, y: int| on_screen(x, y) implies spec_pixel(fb@, x, y)
                == 0u16 by {
                lemma_pixel_index_in_range(x, y);
            }
        }
        fb
    }

    /// Read back one cell.
    pub fn get_pixel(&self, x: i32, y: i32) -> (color: u16)
        requires
            canvas_wf(self@),
            on_screen(x as int, y as int),
        ensures
            color == spec_pixel(self@, x as int, y as int),
    {
        proof {
            lemma_pixel_index_in_range(x as int, y as int);
        }
        let idx: usize = (y * SCREEN_W + x) as usize;
        self.cells[idx]
    }
}

/// Write `color` to cell `(x, y)`. The coordinates must be on screen: this
/// precondition is the central safety contract of the subsystem, and every
/// caller discharges it with an explicit range check or a proof.
pub fn video3_draw_pixel(fb: &mut FramebufferCanvas, x: i32, y: i32, color: u16)
    requires
        canvas_wf(old(fb)@),
        on_screen(x as int, y as int),
    ensures
        final(fb)@ == spec_draw(old(fb)@, x as int, y as int, color),
        canvas_wf(final(fb)@),
{
    proof {
        lemma_pixel_index_in_range(x as int, y as int);
    }
    let idx: usize = (y * SCREEN_W + x) as usize;
    fb.cells[idx] = color;
}

/// A pixel write is read back exactly, and disturbs no other cell.
pub proof fn lemma_draw_pixel_read_back(v: Seq<u16>, x: int, y: int, color: u16)
    requires
        canvas_wf(v),
        on_screen(x, y),
    ensures
        spec_pixel(spec_draw(v, x, y, color), x, y) == color,
        forall|i: int, j: int|
            on_screen(i, j) && !(i == x && j == y) ==> spec_pixel(spec_draw(v, x, y, color), i, j)
                == spec_pixel(v, i, j),
{
    lemma_pixel_index_in_range(x, y);
    assert forall|i: int, j: int| on_screen(i, j) && !(i == x && j == y) implies spec_pixel(
        spec_draw(v, x, y, color),
        i,
        j,
    ) == spec_pixel(v, i, j) by {
        lemma_pixel_index_in_range(i, j);
        if pixel_index(i, j) == pixel_index(x, y) {
            lemma_pixel_index_injective(i, j, x, y);
        }
    }
}

/// Write `color` to every one of the grid's cells, last row and column
/// included.
pub fn video3_clear_to(fb: &mut FramebufferCanvas, color: u16)
    requires
        canvas_wf(old(fb)@),
    ensures
        canvas_wf(final(fb)@),
        forall|x: int, y: int| on_screen(x, y) ==> spec_pixel(final(fb)@, x, y) == color,
{
    let n: usize = (SCREEN_W * SCREEN_H) as usize;
    let mut k: usize = 0;
    while k < n
        invariant
            k <= n,
            n == SCREEN_W * SCREEN_H,
            fb@.len() == n,
            forall|m: int| 0 <= m < k ==> fb@[m] == color,
        decreases n - k,
    {
        fb.cells[k] = color;
        k = k + 1;
    }
    proof {
        assert forall|x: int, y: int| on_screen(x, y) implies spec_pixel(fb@, x, y) == color by {
            lemma_pixel_index_in_range(x, y);
        }
    }
}

/// The last-resort failure path's screen effect: paint the whole canvas the
/// alarm color so the fault is visible. Diagnostics and the terminal halt
/// live with the process around the library.
pub fn panic_screen(fb: &mut FramebufferCanvas)
    requires
        canvas_wf(old(fb)@),
    ensures
        canvas_wf(final(fb)@),
        forall|x: int, y: int| on_screen(x, y) ==> spec_pixel(final(fb)@, x, y) == COLOR_RED,
{
    video3_clear_to(fb, COLOR_RED);
}

} // verus!
