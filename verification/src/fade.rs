//! The fade engine's pure parts: frame-count planning, delta-table
//! construction from the captured and the target image, and the real-time
//! pacing step with catch-up frame dropping.
//!
//! The caller runs the loop: it renders each frame through the compositor,
//! transfers it to the backing pixmap, measures the elapsed wall-clock time
//! and feeds it to [`FadePlan::step`], then sleeps for the returned span.

use vstd::prelude::*;

use crate::canvas::{Canvas, DeltaEntry, DeltaTable, delta_compat};
use crate::pixel::{ByteOrder, RgbData, blue_of, green_of, red_of, zpix_to_rgb};

verus! {

/// Number of frames of a fade lasting `ms` milliseconds: 64 frames per
/// second rounded to the nearest whole frame, capped at 256 from four
/// seconds upward.
pub open spec fn spec_fade_iters(ms: int) -> int {
    if ms >= 4000 {
        256
    } else {
        (ms * 64 + 500) / 1000
    }
}

/// Scheduled time between two successive frames, in nanoseconds.
pub open spec fn spec_fade_tick(ms: int) -> int {
    ms * 1000000 / spec_fade_iters(ms)
}

/// The plan of one fade: its frame count and its tick.
#[derive(Debug, PartialEq, Eq, Structural, Clone, Copy)]
pub struct FadePlan {
    pub iters: u32,
    pub tick_ns: u64,
}

/// Bounds every plan made by [`fade_plan`] meets; they keep all deadline
/// arithmetic inside `u64`.
impl FadePlan {
    pub open spec fn wf(&self) -> bool {
        &&& 1 <= self.iters <= 256
        &&& self.iters <= self.tick_ns
        &&& self.tick_ns <= 0x20_0000_0000_0000
    }

    /// Deadline, relative to the fade's start, of the frame rendered at
    /// loop counter `i` (the counter runs from `iters` down to 1).
    pub open spec fn spec_deadline(&self, i: int) -> int {
        self.tick_ns * (self.iters - i + 1)
    }
}

/// Bounds of the planned frame count and tick for any duration of at
/// least eight milliseconds.
pub proof fn lemma_fade_plan_bounds(ms: int)
    requires
        8 <= ms <= u32::MAX,
    ensures
        1 <= spec_fade_iters(ms) <= 256,
        31250 <= spec_fade_tick(ms) <= 0x20_0000_0000_0000,
        spec_fade_iters(ms) <= spec_fade_tick(ms),
{
    let n = spec_fade_iters(ms);
    if ms < 4000 {
        vstd::arithmetic::div_mod::lemma_div_is_ordered(1012, ms * 64 + 500, 1000);
        vstd::arithmetic::div_mod::lemma_div_is_ordered(ms * 64 + 500, 256436, 1000);
    }
    assert(1 <= n <= 256);
    vstd::arithmetic::div_mod::lemma_div_is_ordered_by_denominator(ms * 1000000, n, 256);
    vstd::arithmetic::div_mod::lemma_div_is_ordered(8000000, ms * 1000000, 256);
    vstd::arithmetic::div_mod::lemma_div_is_ordered_by_denominator(ms * 1000000, 1, n);
    vstd::arithmetic::div_mod::lemma_div_basics(ms * 1000000);
}

/// Plans a fade of the given duration.
pub fn fade_plan(ms: u32) -> (p: FadePlan)
    requires
        8 <= ms,
    ensures
        p.wf(),
        p.iters == spec_fade_iters(ms as int),
        p.tick_ns == spec_fade_tick(ms as int),
{
    proof {
        lemma_fade_plan_bounds(ms as int);
    }
    let iters: u32 = if ms >= 4000 {
        256
    } else {
        (ms * 64 + 500) / 1000
    };
    let tick_ns: u64 = ((ms as u64) * 1000000) / (iters as u64);
    FadePlan { iters, tick_ns }
}

impl FadePlan {
    /// One pacing decision of the fade loop, taken after the frame at
    /// counter `i` was produced and `elapsed_ns` nanoseconds have passed
    /// since the fade began.  If the frame met its deadline the loop sleeps
    /// up to the deadline and decrements the counter by one; if it overran,
    /// the loop skips one extra frame per full tick of slippage instead of
    /// queueing stale frames, clamping the counter at zero.
    pub fn step(&self, i: u32, elapsed_ns: u64) -> (r: (u64, u32))
        requires
            self.wf(),
            1 <= i <= self.iters,
            elapsed_ns < 0x4000_0000_0000_0000,
        ensures
            ({
                let dl = self.spec_deadline(i as int);
                &&& elapsed_ns <= dl ==> r.0 == dl - elapsed_ns && r.1 == i - 1
                &&& elapsed_ns > dl ==> {
                    let skip = (elapsed_ns - dl) / (self.tick_ns as int) + 1;
                    &&& r.0 == 0
                    &&& r.1 == if i - skip >= 0 {
                        i - skip
                    } else {
                        0
                    }
                }
            }),
            r.1 < i,
    {
        let span = (self.iters - i + 1) as u64;
        proof {
            assert((self.tick_ns as int) * (span as int) <= (self.tick_ns as int) * 256)
                by (nonlinear_arith)
                requires
                    1 <= span as int <= 256 && 0 <= self.tick_ns as int,
            ;
        }
        let deadline = self.tick_ns * span;
        if elapsed_ns <= deadline {
            (deadline - elapsed_ns, i - 1)
        } else {
            let over = elapsed_ns - deadline;
            proof {
                vstd::arithmetic::div_mod::lemma_div_nonincreasing(
                    over as int,
                    self.tick_ns as int,
                );
                vstd::arithmetic::div_mod::lemma_div_pos_is_pos(over as int, self.tick_ns as int);
            }
            let skip = over / self.tick_ns + 1;
            let next = if skip >= i as u64 {
                0
            } else {
                i - (skip as u32)
            };
            (0, next)
        }
    }
}

/// Monotonic pacing: the deadline of a fade's final frame — the loop's
/// total scheduled duration when no frame slips — is within one tick of
/// the requested duration, and never exceeds it.
pub proof fn lemma_fade_duration(ms: int)
    requires
        8 <= ms <= u32::MAX,
    ensures
        ({
            let n = spec_fade_iters(ms);
            let t = spec_fade_tick(ms);
            n * t <= ms * 1000000 < n * t + t
        }),
{
    let n = spec_fade_iters(ms);
    let t = spec_fade_tick(ms);
    lemma_fade_plan_bounds(ms);
    vstd::arithmetic::div_mod::lemma_fundamental_div_mod(ms * 1000000, n);
    assert(ms * 1000000 == n * (ms * 1000000 / n) + (ms * 1000000) % n);
    vstd::arithmetic::div_mod::lemma_mod_bound(ms * 1000000, n);
}

/// With every frame on schedule, one pacing step advances the fade's
/// elapsed time exactly to the frame's deadline, one tick past the previous
/// one, and decrements the counter by one; after the final step (`i == 1`)
/// exactly `iters * tick_ns` nanoseconds have therefore passed since the
/// fade began.
pub proof fn lemma_on_schedule_step(p: FadePlan, i: int, elapsed: int)
    requires
        p.wf(),
        1 <= i <= p.iters,
        elapsed == p.tick_ns * (p.iters - i),
    ensures
        0 <= elapsed <= p.spec_deadline(i),
        p.spec_deadline(i) - elapsed == p.tick_ns,
        i == 1 ==> p.spec_deadline(i) == (p.iters as int) * (p.tick_ns as int),
{
    let t = p.tick_ns as int;
    let n = p.iters as int;
    assert(t * (n - i + 1) - t * (n - i) == t && 0 <= t * (n - i) && t * (n - i + 1) == (n - i + 1)
        * t) by (nonlinear_arith)
        requires
            0 <= t && i <= n,
    ;
    if i == 1 {
        assert(t * (n - 1 + 1) == n * t) by (nonlinear_arith);
    }
}

/// Catch-up: when one iteration overruns its budget — finishing two full
/// ticks past its deadline, that is taking three ticks instead of one —
/// the following pacing step skips three counter decrements (one regular
/// and at least two extra) instead of sleeping a negative span.
pub proof fn lemma_catch_up(p: FadePlan, i: int, elapsed: int)
    requires
        p.wf(),
        1 <= i <= p.iters,
        elapsed == p.tick_ns * (p.iters - i) + 3 * p.tick_ns,
    ensures
        elapsed > p.spec_deadline(i),
        (elapsed - p.spec_deadline(i)) / (p.tick_ns as int) + 1 == 3,
{
    let t = p.tick_ns as int;
    let n = p.iters as int;
    assert(t * (n - i) + 3 * t - t * (n - i + 1) == 2 * t) by (nonlinear_arith);
    vstd::arithmetic::div_mod::lemma_fundamental_div_mod_converse(2 * t, t, 2, 0);
}

/// The delta entry the fade precomputes for one pixel: each channel of the
/// captured on-screen pixel minus the same channel of the target image.
pub open spec fn delta_for(canvas: &Canvas, img: &RgbData, x: int, y: int) -> DeltaEntry {
    DeltaEntry {
        dr: (red_of(canvas.spec_pixel_at(x, y)) - img.spec_pix(x, y).r) as i16,
        dg: (green_of(canvas.spec_pixel_at(x, y)) - img.spec_pix(x, y).g) as i16,
        db: (blue_of(canvas.spec_pixel_at(x, y)) - img.spec_pix(x, y).b) as i16,
    }
}

/// Builds the fade's delta table from the captured canvas contents and the
/// target image, one entry per canvas pixel, all over the fade's iteration
/// count.
pub fn build_deltas(canvas: &Canvas, img: &RgbData, iters: u32) -> (dt: DeltaTable)
    requires
        canvas.wf(),
        canvas.byte_order == ByteOrder::LsbFirst,
        img.wf(),
        1 <= iters <= 0x10000,
        canvas.width <= img.width,
        canvas.height <= img.height,
    ensures
        dt.wf(),
        dt.width == canvas.width,
        dt.height == canvas.height,
        dt.denom == iters,
        forall|x: int, y: int|
            0 <= x < canvas.width && 0 <= y < canvas.height ==> #[trigger] dt.spec_at(x, y)
                == delta_for(canvas, img, x, y),
        forall|x: int, y: int|
            0 <= x < canvas.width && 0 <= y < canvas.height ==> #[trigger] delta_compat(
                &dt,
                img,
                x,
                y,
            ),
{
    let w = canvas.width;
    let h = canvas.height;
    let mut entries: Vec<DeltaEntry> = Vec::new();
    let mut y: u32 = 0;
    while y < h as u32
        invariant
            canvas.wf(),
            canvas.byte_order == ByteOrder::LsbFirst,
            img.wf(),
            w == canvas.width,
            h == canvas.height,
            canvas.width <= img.width,
            canvas.height <= img.height,
            y <= h as u32,
            entries@.len() == (y as int) * (w as int),
            forall|px: int, py: int|
                0 <= px < w && 0 <= py < y ==> entries@[py * (w as int) + px] == delta_for(
                    canvas,
                    img,
                    px,
                    py,
                ),
        decreases h as u32 - y,
    {
        let mut x: u32 = 0;
        while x < w as u32
            invariant
                canvas.wf(),
                canvas.byte_order == ByteOrder::LsbFirst,
                img.wf(),
                w == canvas.width,
                h == canvas.height,
                canvas.width <= img.width,
                canvas.height <= img.height,
                y < h as u32,
                x <= w as u32,
                entries@.len() == (y as int) * (w as int) + x,
                forall|px: int, py: int|
                    0 <= px < w && 0 <= py <= y && (py < y || px < x) ==> entries@[py * (w as int)
                        + px] == delta_for(canvas, img, px, py),
            decreases w as u32 - x,
        {
            let z = canvas.get(x, y);
            let (cr, cg, cb) = zpix_to_rgb(z, canvas.byte_order);
            let p = img.get_pixel(x, y);
            let e = DeltaEntry {
                dr: (cr as i16) - (p.r as i16),
                dg: (cg as i16) - (p.g as i16),
                db: (cb as i16) - (p.b as i16),
            };
            proof {
                crate::pixel::lemma_row_major_index(x as int, y as int, w as int, h as int);
            }
            entries.push(e);
            proof {
                assert(e == delta_for(canvas, img, x as int, y as int));
                assert forall|px: int, py: int|
                    0 <= px < w && 0 <= py <= y && (py < y || px < x + 1) implies entries@[py * (
                w as int) + px] == delta_for(canvas, img, px, py) by {
                    crate::pixel::lemma_row_major_index(px, py, w as int, h as int);
                    if py < y {
                        assert(py * (w as int) + px < (y as int) * (w as int) + x)
                            by (nonlinear_arith)
                            requires
                                0 <= px < w as int && 0 <= py < y as int && 0 <= x as int,
                        ;
                    }
                }
            }
            x = x + 1;
        }
        proof {
            assert((y as int) * (w as int) + (w as int) == (y as int + 1) * (w as int))
                by (nonlinear_arith);
        }
        y = y + 1;
    }
    proof {
        assert((h as int) * (w as int) == (w as int) * (h as int)) by (nonlinear_arith);
    }
    let dt = DeltaTable { width: w, height: h, denom: iters, entries };
    proof {
        assert(dt.wf());
        assert forall|x: int, y: int|
            0 <= x < canvas.width && 0 <= y < canvas.height implies #[trigger] dt.spec_at(x, y)
            == delta_for(canvas, img, x, y) by {
            crate::pixel::lemma_row_major_index(x, y, w as int, h as int);
        }
        assert forall|x: int, y: int|
            0 <= x < canvas.width && 0 <= y < canvas.height implies #[trigger] delta_compat(
            &dt,
            img,
            x,
            y,
        ) by {
            assert(dt.spec_at(x, y) == delta_for(canvas, img, x, y));
        }
    }
    dt
}

} // verus!
