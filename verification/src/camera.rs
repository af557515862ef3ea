//! The camera: pan and zoom, and the screen-to-world transform.
//!
//! All quantities are fixed-point. A world coordinate of `MILLI` is one
//! world unit; `zoom == MILLI` means 1:1. Zoom is clamped to
//! `[ZOOM_MIN, ZOOM_MAX]` (0.1x to 5x), and the pan offset is clamped to the
//! world's span, so every intermediate product below fits an `i64`.

use vstd::prelude::*;
use crate::math::{clamp_spec, clamp64, muldiv, muldiv64, tdiv};

verus! {

/// One world unit, in fixed-point steps.
pub const MILLI: i64 = 1000;

/// Smallest zoom (0.1x).
pub const ZOOM_MIN: i64 = 100;

/// Largest zoom (5x).
pub const ZOOM_MAX: i64 = 5000;

/// One scroll step multiplies or divides the zoom by 1.1.
pub const ZOOM_STEP_NUM: i64 = 1100;

/// Positions and pan offsets live in `[-POS_LIMIT, POS_LIMIT]`.
pub const POS_LIMIT: i64 = 10_000_000;

/// Screen coordinates handed to the engine must lie in
/// `[-SCREEN_LIMIT, SCREEN_LIMIT]` (one hundred thousand pixels).
pub const SCREEN_LIMIT: i64 = 100_000_000;

/// Bound on the world coordinates that the screen-to-world transform can
/// produce from in-range inputs.
pub const WORLD_LIMIT: i64 = 2_100_000_000;

/// Pan (world-space offset of the view centre) plus zoom.
pub struct Camera {
    pub pan_x: i64,
    pub pan_y: i64,
    pub zoom: i64,
}

impl Camera {
    pub open spec fn wf(self) -> bool {
        &&& ZOOM_MIN <= self.zoom <= ZOOM_MAX
        &&& -POS_LIMIT <= self.pan_x <= POS_LIMIT
        &&& -POS_LIMIT <= self.pan_y <= POS_LIMIT
    }

    pub fn new() -> (c: Camera)
        ensures
            c.wf(),
            c.pan_x == 0,
            c.pan_y == 0,
            c.zoom == MILLI,
    {
        Camera { pan_x: 0, pan_y: 0, zoom: MILLI }
    }

    /// The zoom after one scroll step: multiplied by 1.1 when zooming in,
    /// divided by 1.1 when zooming out, then clamped into range.
    pub open spec fn spec_zoom_step(z: int, zoom_in: bool) -> int {
        let raw = if zoom_in {
            z * ZOOM_STEP_NUM / (MILLI as int)
        } else {
            z * MILLI / (ZOOM_STEP_NUM as int)
        };
        clamp_spec(raw, ZOOM_MIN as int, ZOOM_MAX as int)
    }

    /// One scroll event. A negative vertical delta zooms in, anything else
    /// zooms out; the pan is untouched, and the zoom never leaves its range.
    pub fn scroll(&mut self, delta_y: i64)
        requires
            old(self).wf(),
        ensures
            final(self).wf(),
            final(self).zoom == Self::spec_zoom_step(old(self).zoom as int, delta_y < 0),
            final(self).pan_x == old(self).pan_x,
            final(self).pan_y == old(self).pan_y,
    {
        let raw = if delta_y < 0 {
            muldiv64(self.zoom, ZOOM_STEP_NUM, MILLI)
        } else {
            muldiv64(self.zoom, MILLI, ZOOM_STEP_NUM)
        };
        self.zoom = clamp64(raw, ZOOM_MIN, ZOOM_MAX);
    }

    /// World coordinate of a screen point:
    /// `(s - extent/2) / zoom + pan`, in fixed point.
    pub open spec fn spec_to_world(s: int, extent: int, zoom: int, pan: int) -> int {
        tdiv((s - extent / 2) * (MILLI as int), zoom) + pan
    }

    /// Convert a screen-space point (pointer position, in fixed-point
    /// pixels) to world space for the given viewport size.
    pub fn screen_to_world(&self, sx: i64, sy: i64, view_w: i64, view_h: i64) -> (w: (
        i64,
        i64,
    ))
        requires
            self.wf(),
            -SCREEN_LIMIT <= sx <= SCREEN_LIMIT,
            -SCREEN_LIMIT <= sy <= SCREEN_LIMIT,
            0 <= view_w <= SCREEN_LIMIT,
            0 <= view_h <= SCREEN_LIMIT,
        ensures
            w.0 == Self::spec_to_world(sx as int, view_w as int, self.zoom as int, self.pan_x as int),
            w.1 == Self::spec_to_world(sy as int, view_h as int, self.zoom as int, self.pan_y as int),
            -WORLD_LIMIT <= w.0 <= WORLD_LIMIT,
            -WORLD_LIMIT <= w.1 <= WORLD_LIMIT,
    {
        let half_w = ((view_w as u64) / 2) as i64;
        let half_h = ((view_h as u64) / 2) as i64;
        proof {
            crate::math::lemma_mul_le(100, self.zoom as int, 2_000_000_000);
            crate::math::lemma_tdiv_le(
                (sx - half_w) as int * (MILLI as int),
                self.zoom as int,
                2_000_000_000,
            );
            crate::math::lemma_tdiv_le(
                (sy - half_h) as int * (MILLI as int),
                self.zoom as int,
                2_000_000_000,
            );
        }
        let wx = muldiv64(sx - half_w, MILLI, self.zoom) + self.pan_x;
        let wy = muldiv64(sy - half_h, MILLI, self.zoom) + self.pan_y;
        (wx, wy)
    }
}

/// However many scroll events arrive, the zoom never leaves its configured
/// range: one step from an in-range zoom is in range again.
pub proof fn lemma_zoom_stays_in_range(z: int, zoom_in: bool)
    ensures
        ZOOM_MIN <= Camera::spec_zoom_step(z, zoom_in) <= ZOOM_MAX,
{
}

} // verus!
