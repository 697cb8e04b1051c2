//! The plotter: map a bounded sequence of fixed-point samples onto screen
//! columns through an affine transform (a vertical gain over the sample
//! range, about the range midpoint, with the axis inverted so larger values
//! plot higher), dropping every point whose projected row misses the screen.
//! Samples are fixed-point values: the integer is the sample scaled by
//! `SAMPLE_ONE`.

use vstd::prelude::*;

verus! {

use vstd::arithmetic::div_mod::{
    lemma_basic_div, lemma_div_by_multiple, lemma_div_is_ordered, lemma_div_nonincreasing,
    lemma_fundamental_div_mod, lemma_hoist_over_denominator,
};

use crate::canvas::{
    canvas_wf, lemma_draw_pixel_read_back, on_screen, spec_pixel, video3_draw_pixel,
    FramebufferCanvas,
};
use crate::{COLOR_GREEN, COLOR_RED, SCREEN_H, SCREEN_W};

/// The fixed-point value one: samples carry 16 fractional bits.
pub const SAMPLE_ONE: i32 = 65536;

/// Screen row of the vertical center of the plot.
pub const PLOT_CENTER_Y: i64 = 80;

/// Vertical gain of the transform: 45 percent of the 160-row screen, so a
/// full sample range spans a bit under half the screen above and below the
/// center row.
pub const PLOT_GAIN: i64 = 72;

/// Smallest value of the least-significant fixed-point digit, used as the
/// range floor for a degenerate (constant) series.
pub const RANGE_EPSILON: i64 = 1;

/// Least sample of a nonempty series.
pub open spec fn spec_min(s: Seq<i32>) -> int
    recommends
        s.len() >= 1,
    decreases s.len(),
{
    if s.len() <= 1 {
        s[0] as int
    } else {
        let m = spec_min(s.drop_last());
        if (s.last() as int) < m {
            s.last() as int
        } else {
            m
        }
    }
}

/// Greatest sample of a nonempty series.
pub open spec fn spec_max(s: Seq<i32>) -> int
    recommends
        s.len() >= 1,
    decreases s.len(),
{
    if s.len() <= 1 {
        s[0] as int
    } else {
        let m = spec_max(s.drop_last());
        if (s.last() as int) > m {
            s.last() as int
        } else {
            m
        }
    }
}

/// `spec_min` and `spec_max` bound every sample and are themselves samples.
pub proof fn lemma_min_max_bounds(s: Seq<i32>)
    requires
        s.len() >= 1,
    ensures
        forall|k: int| #![trigger s[k]]
            0 <= k < s.len() ==> spec_min(s) <= s[k] as int && s[k] as int <= spec_max(s),
        exists|k: int| 0 <= k < s.len() && #[trigger] s[k] as int == spec_min(s),
        exists|k: int| 0 <= k < s.len() && #[trigger] s[k] as int == spec_max(s),
    decreases s.len(),
{
    if s.len() == 1 {
        assert(0 <= 0 < s.len() && s[0] as int == spec_min(s));
        assert(0 <= 0 < s.len() && s[0] as int == spec_max(s));
    } else {
        let d = s.drop_last();
        lemma_min_max_bounds(d);
        assert forall|k: int| 0 <= k < s.len() implies spec_min(s) <= s[k] as int && s[k] as int
            <= spec_max(s) by {
            if k < s.len() - 1 {
                assert(s[k] == d[k]);
            } else {
                assert(s[k] == s.last());
            }
        }
        let last = s.len() - 1;
        if (s.last() as int) < spec_min(d) {
            assert(0 <= last < s.len() && s[last] as int == spec_min(s));
        } else {
            let k0 = choose|k0: int| 0 <= k0 < d.len() && #[trigger] d[k0] as int == spec_min(d);
            assert(0 <= k0 < s.len() && s[k0] as int == spec_min(s));
        }
        if (s.last() as int) > spec_max(d) {
            assert(0 <= last < s.len() && s[last] as int == spec_max(s));
        } else {
            let k0 = choose|k0: int| 0 <= k0 < d.len() && #[trigger] d[k0] as int == spec_max(d);
            assert(0 <= k0 < s.len() && s[k0] as int == spec_max(s));
        }
    }
}

/// Number of samples plotted: one per screen column, never more than the
/// series holds.
pub open spec fn spec_steps(len: int) -> int {
    if len < SCREEN_W {
        len
    } else {
        SCREEN_W as int
    }
}

/// Midpoint of the observed sample range (its low end plus half the span).
pub open spec fn spec_mid(lo: int, hi: int) -> int {
    lo + (hi - lo) / 2
}

/// Span of the observed range, floored at `RANGE_EPSILON` so a constant
/// series never divides by zero.
pub open spec fn spec_range_floor(lo: int, hi: int) -> int {
    if hi - lo >= RANGE_EPSILON {
        hi - lo
    } else {
        RANGE_EPSILON as int
    }
}

/// Projected screen row of sample `v` under the transform: the center row,
/// minus the sample's signed offset from the midpoint scaled by
/// `PLOT_GAIN / range` (the axis is inverted, so larger samples get smaller
/// rows).
pub open spec fn spec_plot_y(v: int, mid: int, range: int) -> int
    recommends
        range >= 1,
{
    if v >= mid {
        (PLOT_CENTER_Y as int) - ((v - mid) * (PLOT_GAIN as int)) / range
    } else {
        (PLOT_CENTER_Y as int) + ((mid - v) * (PLOT_GAIN as int)) / range
    }
}

/// First pass of the per-series scan: the least and greatest of the first
/// `steps` samples.
pub fn series_min_max(samples: &Vec<i32>, steps: usize) -> (r: (i32, i32))
    requires
        1 <= steps <= samples@.len(),
    ensures
        r.0 as int == spec_min(samples@.take(steps as int)),
        r.1 as int == spec_max(samples@.take(steps as int)),
        forall|k: int| #![trigger samples@[k]]
            0 <= k < steps ==> r.0 <= samples@[k] && samples@[k] <= r.1,
        exists|k: int| 0 <= k < steps && #[trigger] samples@[k] == r.0,
        exists|k: int| 0 <= k < steps && #[trigger] samples@[k] == r.1,
{
    let mut vmin = samples[0];
    let mut vmax = samples[0];
    proof {
        assert(samples@.take(1)[0] == samples@[0]);
    }
    let mut i: usize = 1;
    while i < steps
        invariant
            1 <= i <= steps,
            steps <= samples@.len(),
            vmin as int == spec_min(samples@.take(i as int)),
            vmax as int == spec_max(samples@.take(i as int)),
        decreases steps - i,
    {
        let v = samples[i];
        proof {
            let t1 = samples@.take(i as int + 1);
            assert(t1.drop_last() =~= samples@.take(i as int));
            assert(t1.last() == samples@[i as int]);
        }
        if v < vmin {
            vmin = v;
        }
        if v > vmax {
            vmax = v;
        }
        i = i + 1;
    }
    proof {
        let w = samples@.take(steps as int);
        lemma_min_max_bounds(w);
        assert forall|k: int| 0 <= k < steps implies vmin <= #[trigger] samples@[k] && samples@[k]
            <= vmax by {
            assert(w[k] == samples@[k]);
        }
        let k0 = choose|k0: int| 0 <= k0 < w.len() && #[trigger] w[k0] as int == spec_min(w);
        assert(samples@[k0] == vmin);
        let k1 = choose|k1: int| 0 <= k1 < w.len() && #[trigger] w[k1] as int == spec_max(w);
        assert(samples@[k1] == vmax);
    }
    (vmin, vmax)
}

/// The transform parameters derived from an observed range: the midpoint,
/// and the span floored at `RANGE_EPSILON` for a degenerate range.
pub fn compute_transform(vmin: i32, vmax: i32) -> (t: (i64, i64))
    requires
        vmin <= vmax,
    ensures
        t.0 == spec_mid(vmin as int, vmax as int),
        t.1 == spec_range_floor(vmin as int, vmax as int),
        vmin <= t.0 <= vmax,
        1 <= t.1 <= 0x1_0000_0000i64,
{
    let lo = vmin as i64;
    let hi = vmax as i64;
    let raw: i64 = hi - lo;
    let half: i64 = ((raw as u64) / 2) as i64;
    let mid: i64 = lo + half;
    let range: i64 = if raw >= RANGE_EPSILON {
        raw
    } else {
        RANGE_EPSILON
    };
    proof {
        lemma_fundamental_div_mod(raw as int, 2);
    }
    (mid, range)
}

/// The projected row of one sample, as an unclipped signed row number.
pub fn plot_y(v: i32, mid: i64, range: i64) -> (y: i64)
    requires
        range >= 1,
        i32::MIN <= mid <= i32::MAX,
    ensures
        y == spec_plot_y(v as int, mid as int, range as int),
{
    let vv = v as i64;
    if vv >= mid {
        let d: i64 = vv - mid;
        let q: u64 = ((d as u64) * 72) / (range as u64);
        proof {
            lemma_div_nonincreasing(d as int * 72, range as int);
        }
        PLOT_CENTER_Y - (q as i64)
    } else {
        let d: i64 = mid - vv;
        let q: u64 = ((d as u64) * 72) / (range as u64);
        proof {
            lemma_div_nonincreasing(d as int * 72, range as int);
        }
        PLOT_CENTER_Y + (q as i64)
    }
}

/// Sample `i` of the series, plotted in column `i`, paints pixel `(i, j)`.
/// Rows outside the screen never satisfy this: those points are clipped.
pub open spec fn plot_covers(
    s: Seq<i32>,
    steps: int,
    mid: int,
    range: int,
    i: int,
    j: int,
) -> bool {
    0 <= i < steps && spec_plot_y(s[i] as int, mid, range) == j
}

/// `post` is `pre` with the first `steps` samples of the series plotted:
/// column `i` holds the series color at the projected row of sample `i`
/// when that row is on screen, and every other cell is untouched.
pub open spec fn series_plotted(
    pre: Seq<u16>,
    post: Seq<u16>,
    s: Seq<i32>,
    steps: int,
    mid: int,
    range: int,
    color: u16,
) -> bool {
    &&& canvas_wf(pre)
    &&& canvas_wf(post)
    &&& forall|i: int, j: int|
        on_screen(i, j) ==> spec_pixel(post, i, j) == (if plot_covers(s, steps, mid, range, i, j) {
            color
        } else {
            spec_pixel(pre, i, j)
        })
}

/// Plot the first `steps` samples, one per column from the left edge,
/// silently dropping every sample whose projected row misses the screen.
pub fn plot_series(
    fb: &mut FramebufferCanvas,
    samples: &Vec<i32>,
    steps: usize,
    mid: i64,
    range: i64,
    color: u16,
)
    requires
        canvas_wf(old(fb)@),
        steps <= samples@.len(),
        steps <= SCREEN_W,
        range >= 1,
        i32::MIN <= mid <= i32::MAX,
    ensures
        series_plotted(
            old(fb)@,
            final(fb)@,
            samples@,
            steps as int,
            mid as int,
            range as int,
            color,
        ),
{
    let mut i: usize = 0;
    while i < steps
        invariant
            i <= steps,
            steps <= samples@.len(),
            steps <= SCREEN_W,
            range >= 1,
            i32::MIN <= mid <= i32::MAX,
            canvas_wf(fb@),
            forall|ii: int, jj: int|
                on_screen(ii, jj) ==> spec_pixel(fb@, ii, jj) == (if plot_covers(
                    samples@,
                    i as int,
                    mid as int,
                    range as int,
                    ii,
                    jj,
                ) {
                    color
                } else {
                    spec_pixel(old(fb)@, ii, jj)
                }),
        decreases steps - i,
    {
        let y = plot_y(samples[i], mid, range);
        let ghost pre = fb@;
        let on = y >= 0 && y < SCREEN_H as i64;
        if on {
            video3_draw_pixel(fb, i as i32, y as i32, color);
        }
        proof {
            let yv = spec_plot_y(samples@[i as int] as int, mid as int, range as int);
            if on {
                lemma_draw_pixel_read_back(pre, i as int, yv, color);
            }
            assert forall|ii: int, jj: int| on_screen(ii, jj) implies spec_pixel(fb@, ii, jj) == (
            if plot_covers(samples@, i as int + 1, mid as int, range as int, ii, jj) {
                color
            } else {
                spec_pixel(old(fb)@, ii, jj)
            }) by {
                if ii == i as int && jj == yv {
                    assert(on);
                    assert(spec_pixel(fb@, ii, jj) == color);
                } else {
                    assert(spec_pixel(fb@, ii, jj) == spec_pixel(pre, ii, jj));
                }
            }
        }
        i = i + 1;
    }
}

/// Vertical clipping: a sample whose projected row falls off the screen
/// leaves its whole column exactly as it was.
pub proof fn lemma_plot_clipping(
    pre: Seq<u16>,
    post: Seq<u16>,
    s: Seq<i32>,
    steps: int,
    mid: int,
    range: int,
    color: u16,
    i: int,
)
    requires
        series_plotted(pre, post, s, steps, mid, range, color),
        steps <= SCREEN_W,
        0 <= i < steps,
        !(0 <= spec_plot_y(s[i] as int, mid, range) < SCREEN_H),
    ensures
        forall|j: int|
            0 <= j < SCREEN_H ==> spec_pixel(post, i, j) == #[trigger] spec_pixel(pre, i, j),
{
    assert forall|j: int| 0 <= j < SCREEN_H implies spec_pixel(post, i, j) == spec_pixel(
        pre,
        i,
        j,
    ) by {
        assert(on_screen(i, j));
        assert(!plot_covers(s, steps, mid, range, i, j));
    }
}

/// A sample whose projected row is on screen is drawn there, and is the
/// only mark the plot leaves in its column.
pub proof fn lemma_plot_point(
    pre: Seq<u16>,
    post: Seq<u16>,
    s: Seq<i32>,
    steps: int,
    mid: int,
    range: int,
    color: u16,
    i: int,
)
    requires
        series_plotted(pre, post, s, steps, mid, range, color),
        steps <= SCREEN_W,
        0 <= i < steps,
        0 <= spec_plot_y(s[i] as int, mid, range) < SCREEN_H,
    ensures
        spec_pixel(post, i, spec_plot_y(s[i] as int, mid, range)) == color,
        forall|j: int|
            0 <= j < SCREEN_H && j != spec_plot_y(s[i] as int, mid, range) ==> spec_pixel(
                post,
                i,
                j,
            ) == #[trigger] spec_pixel(pre, i, j),
{
    let y = spec_plot_y(s[i] as int, mid, range);
    assert(on_screen(i, y));
    assert(plot_covers(s, steps, mid, range, i, y));
    assert(spec_pixel(post, i, y) == color);
    assert forall|j: int| 0 <= j < SCREEN_H && j != y implies spec_pixel(post, i, j) == spec_pixel(
        pre,
        i,
        j,
    ) by {
        assert(on_screen(i, j));
        assert(!plot_covers(s, steps, mid, range, i, j));
    }
}

/// Auto-scaling fits the curve to the screen: every sample between the
/// observed minimum and maximum projects to a row between 8 and 152, well
/// inside the 160-row screen, whatever the numeric range of the series.
pub proof fn lemma_autoscale_on_screen(v: int, lo: int, hi: int)
    requires
        lo <= v <= hi,
    ensures
        8 <= spec_plot_y(v, spec_mid(lo, hi), spec_range_floor(lo, hi)) <= 152,
{
    let raw = hi - lo;
    let mid = spec_mid(lo, hi);
    let range = spec_range_floor(lo, hi);
    lemma_fundamental_div_mod(raw, 2);
    assert(raw <= range);
    if v >= mid {
        let d = v - mid;
        assert(d <= raw - raw / 2);
        assert(d * 72 <= 36 * range + 36);
        lemma_div_is_ordered(d * 72, 36 * range + 36, range);
        lemma_hoist_over_denominator(36, 36, range as nat);
        assert((36 + 36 * range) / range == 36int / range + 36);
        lemma_div_nonincreasing(36, range);
        assert((d * 72) / range <= 72);
        lemma_div_is_ordered(0, d * 72, range);
    } else {
        let d = mid - v;
        assert(d <= raw / 2);
        assert(d * 72 <= 36 * range);
        lemma_div_is_ordered(d * 72, 36 * range, range);
        lemma_div_by_multiple(36, range);
        assert((36 * range) / range == 36);
        lemma_div_is_ordered(0, d * 72, range);
    }
}

/// The exact top of the plotted band: when the span of the series is even
/// or wider than half the gain, the maximum sample projects exactly
/// `PLOT_GAIN / 2` rows above the center row - row 44. (For a tiny odd
/// span, rounding in the integer divide can push the row lower, never by
/// more than the gain.)
pub proof fn lemma_autoscale_max_row(lo: int, hi: int)
    requires
        lo < hi,
        (hi - lo) % 2 == 0 || hi - lo > 36,
    ensures
        spec_plot_y(hi, spec_mid(lo, hi), spec_range_floor(lo, hi)) == 44,
{
    let range = hi - lo;
    let mid = spec_mid(lo, hi);
    let d = hi - mid;
    lemma_fundamental_div_mod(range, 2);
    if range % 2 == 0 {
        assert(d == range / 2);
        assert(d * 72 == 36 * range);
        lemma_div_by_multiple(36, range);
        assert((36 * range) / range == 36);
    } else {
        assert(d == range / 2 + 1);
        assert(d * 72 == 36 + 36 * range);
        lemma_hoist_over_denominator(36, 36, range as nat);
        assert((36 + 36 * range) / range == 36int / range + 36);
        lemma_basic_div(36, range);
    }
}

/// The samples actually plotted from a series: the first `spec_steps` of
/// them, one per screen column.
pub open spec fn spec_window(t: Seq<i32>) -> Seq<i32> {
    t.take(spec_steps(t.len() as int))
}

/// Transform midpoint derived from a series' plotted window.
pub open spec fn spec_series_mid(t: Seq<i32>) -> int {
    spec_mid(spec_min(spec_window(t)), spec_max(spec_window(t)))
}

/// Transform range derived from a series' plotted window.
pub open spec fn spec_series_range(t: Seq<i32>) -> int {
    spec_range_floor(spec_min(spec_window(t)), spec_max(spec_window(t)))
}

/// Under the transform derived from the truth series itself, every truth
/// sample of the plotted window projects onto the screen: the auto-scaled
/// truth curve is never clipped, whatever its numeric range.
pub proof fn lemma_autoscaled_truth_never_clipped(t: Seq<i32>, i: int)
    requires
        t.len() >= 1,
        0 <= i < spec_steps(t.len() as int),
    ensures
        0 <= spec_plot_y(t[i] as int, spec_series_mid(t), spec_series_range(t)) < SCREEN_H,
{
    let w = spec_window(t);
    lemma_min_max_bounds(w);
    assert(w[i] == t[i]);
    lemma_autoscale_on_screen(t[i] as int, spec_min(w), spec_max(w));
}

/// Render the two series over one shared transform derived from the truth
/// series: plot the truth in green, then the prediction in red, each
/// clipped vertically, one column per step from the left edge.
pub fn render_series_pair(fb: &mut FramebufferCanvas, truth: &Vec<i32>, pred: &Vec<i32>)
    requires
        canvas_wf(old(fb)@),
        truth@.len() >= 1,
        pred@.len() >= spec_steps(truth@.len() as int),
    ensures
        canvas_wf(final(fb)@),
        forall|i: int, j: int|
            on_screen(i, j) ==> spec_pixel(final(fb)@, i, j) == (if plot_covers(
                pred@,
                spec_steps(truth@.len() as int),
                spec_series_mid(truth@),
                spec_series_range(truth@),
                i,
                j,
            ) {
                COLOR_RED
            } else if plot_covers(
                truth@,
                spec_steps(truth@.len() as int),
                spec_series_mid(truth@),
                spec_series_range(truth@),
                i,
                j,
            ) {
                COLOR_GREEN
            } else {
                spec_pixel(old(fb)@, i, j)
            }),
{
    let steps: usize = if truth.len() < SCREEN_W as usize {
        truth.len()
    } else {
        SCREEN_W as usize
    };
    let (vmin, vmax) = series_min_max(truth, steps);
    let (mid, range) = compute_transform(vmin, vmax);
    plot_series(fb, truth, steps, mid, range, COLOR_GREEN);
    plot_series(fb, pred, steps, mid, range, COLOR_RED);
}

} // verus!
