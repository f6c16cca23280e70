//! World-space geometry and the exact integer integration steps shared by
//! every moving entity.
//!
//! Every position is an i64 in micro-pixels and every velocity an i64 in
//! milli-pixels per second, so `velocity * delta_ms` is a position step in
//! micro-pixels with no rounding, and `acceleration * delta_ms` (with the
//! acceleration in px/s^2) is a velocity step in milli-pixels per second
//! with no rounding. Intermediate products are computed in 128 bits and
//! the result is clamped into the simulation's finite coordinate domain,
//! so no tick can overflow whatever the delta.

use vstd::prelude::*;

use crate::args::{POS_LIMIT, VEL_LIMIT};

verus! {

/// An axis-aligned rectangle in world space, in micro-pixels.
/// `x`, `y` is the top-left corner; `y` grows downward.
#[derive(Clone, Copy, PartialEq, Eq, Structural, Debug)]
pub struct Rect {
    pub x: i64,
    pub y: i64,
    pub w: i64,
    pub h: i64,
}

/// Mathematical view of a [`Rect`].
pub struct RectView {
    pub x: int,
    pub y: int,
    pub w: int,
    pub h: int,
}

impl View for Rect {
    type V = RectView;

    open spec fn view(&self) -> RectView {
        RectView { x: self.x as int, y: self.y as int, w: self.w as int, h: self.h as int }
    }
}

/// All four fields of the rectangle lie in the coordinate domain and the
/// extents are non-negative.
pub open spec fn rect_in_domain(r: RectView) -> bool {
    &&& -POS_LIMIT <= r.x <= POS_LIMIT
    &&& -POS_LIMIT <= r.y <= POS_LIMIT
    &&& 0 <= r.w <= POS_LIMIT
    &&& 0 <= r.h <= POS_LIMIT
}

/// Strict overlap of two rectangles: they share interior area
/// (rectangles that merely touch along an edge do not overlap).
pub open spec fn rects_overlap_spec(a: RectView, b: RectView) -> bool {
    &&& a.x < b.x + b.w
    &&& b.x < a.x + a.w
    &&& a.y < b.y + b.h
    &&& b.y < a.y + a.h
}

/// Broad-phase collision test between two world rectangles.
pub fn rects_overlap(a: &Rect, b: &Rect) -> (r: bool)
    requires
        rect_in_domain(a@),
        rect_in_domain(b@),
    ensures
        r == rects_overlap_spec(a@, b@),
{
    a.x < b.x + b.w && b.x < a.x + a.w && a.y < b.y + b.h && b.y < a.y + a.h
}

/// Clamp an integer into `[lo, hi]`.
pub open spec fn clamp_spec(v: int, lo: int, hi: int) -> int {
    if v < lo {
        lo
    } else if v > hi {
        hi
    } else {
        v
    }
}

/// One tick of position integration: `pos + vel * delta`, clamped into
/// the coordinate domain. `pos` is in micro-pixels, `vel` in
/// milli-pixels per second, `delta` in milliseconds.
pub open spec fn advanced_pos(pos: int, vel: int, delta: int) -> int {
    clamp_spec(pos + vel * delta, -POS_LIMIT as int, POS_LIMIT as int)
}

/// One tick of acceleration: `vel + acc * delta`, clamped into the
/// velocity domain. `acc` is in px/s^2, `delta` in milliseconds.
pub open spec fn advanced_vel(vel: int, acc: int, delta: int) -> int {
    clamp_spec(vel + acc * delta, -VEL_LIMIT as int, VEL_LIMIT as int)
}

/// One tick of parallax position integration: the entity moves left at
/// 3/10 of the scroll velocity (truncated), clamped into the domain.
pub open spec fn advanced_pos_parallax(pos: int, vel: int, delta: int) -> int {
    clamp_spec(pos - (vel * 3 * delta) / 10, -POS_LIMIT as int, POS_LIMIT as int)
}

/// Integrate a position by one tick: exact 128-bit product, clamped.
pub fn integrate(pos: i64, vel: i64, delta: i64) -> (r: i64)
    requires
        -POS_LIMIT <= pos <= POS_LIMIT,
        -VEL_LIMIT <= vel <= VEL_LIMIT,
        0 <= delta,
    ensures
        r == advanced_pos(pos as int, vel as int, delta as int),
        -POS_LIMIT <= r <= POS_LIMIT,
{
    proof {
        lemma_scaled_bound(vel as int, delta as int, VEL_LIMIT as int);
    }
    let p: i128 = pos as i128 + (vel as i128) * (delta as i128);
    if p < -POS_LIMIT as i128 {
        -POS_LIMIT
    } else if p > POS_LIMIT as i128 {
        POS_LIMIT
    } else {
        p as i64
    }
}

/// Accelerate a velocity by one tick: exact 128-bit product, clamped.
pub fn accelerate(vel: i64, acc: i64, delta: i64) -> (r: i64)
    requires
        -VEL_LIMIT <= vel <= VEL_LIMIT,
        -VEL_LIMIT <= acc <= VEL_LIMIT,
        0 <= delta,
    ensures
        r == advanced_vel(vel as int, acc as int, delta as int),
        -VEL_LIMIT <= r <= VEL_LIMIT,
{
    proof {
        lemma_scaled_bound(acc as int, delta as int, VEL_LIMIT as int);
    }
    let v: i128 = vel as i128 + (acc as i128) * (delta as i128);
    if v < -VEL_LIMIT as i128 {
        -VEL_LIMIT
    } else if v > VEL_LIMIT as i128 {
        VEL_LIMIT
    } else {
        v as i64
    }
}

/// Integrate a position moving left at 3/10 of the given non-negative
/// scroll velocity.
pub fn integrate_parallax(pos: i64, vel: i64, delta: i64) -> (r: i64)
    requires
        -POS_LIMIT <= pos <= POS_LIMIT,
        0 <= vel <= VEL_LIMIT,
        0 <= delta,
    ensures
        r == advanced_pos_parallax(pos as int, vel as int, delta as int),
        -POS_LIMIT <= r <= POS_LIMIT,
{
    proof {
        lemma_scaled_bound(3 * vel as int, delta as int, 3 * VEL_LIMIT as int);
        vstd::arithmetic::div_mod::lemma_div_is_ordered(
            0,
            vel as int * 3 * delta as int,
            10,
        );
        vstd::arithmetic::div_mod::lemma_div_is_ordered(
            vel as int * 3 * delta as int,
            3 * (VEL_LIMIT as int) * (i64::MAX as int),
            10,
        );
    }
    let num: u128 = (vel as u128) * 3 * (delta as u128);
    let step: u128 = num / 10;
    let p: i128 = pos as i128 - step as i128;
    if p < -POS_LIMIT as i128 {
        -POS_LIMIT
    } else if p > POS_LIMIT as i128 {
        POS_LIMIT
    } else {
        p as i64
    }
}

/// `|a| * d <= |bound| * i64::MAX` for `|a| <= bound`, `0 <= d <= i64::MAX`.
proof fn lemma_scaled_bound(a: int, d: int, bound: int)
    by (nonlinear_arith)
    requires
        -bound <= a <= bound,
        0 <= bound,
        0 <= d <= i64::MAX as int,
    ensures
        -(bound * i64::MAX as int) <= a * d <= bound * i64::MAX as int,
{
}

/// Truncate a micro-pixel coordinate to a whole-pixel coordinate
/// (truncation toward zero, as the host's float-to-int casts do).
pub open spec fn px_of(v: int) -> int {
    if v >= 0 {
        v / 1_000_000
    } else {
        -((-v) / 1_000_000)
    }
}

/// Convert a micro-pixel coordinate to whole pixels, truncating toward
/// zero. Accepts a little slack beyond the position domain, for
/// rectangle corners offset from an in-domain position.
pub fn to_px(v: i64) -> (r: i64)
    requires
        -2 * POS_LIMIT <= v <= 2 * POS_LIMIT,
    ensures
        r == px_of(v as int),
        -2 * POS_LIMIT <= r <= 2 * POS_LIMIT,
{
    if v >= 0 {
        let q: u64 = (v as u64) / 1_000_000;
        proof {
            vstd::arithmetic::div_mod::lemma_div_is_ordered(
                v as int,
                2 * POS_LIMIT as int,
                1_000_000,
            );
            vstd::arithmetic::div_mod::lemma_div_is_ordered(0, v as int, 1_000_000);
        }
        q as i64
    } else {
        let neg: i64 = -v;
        let q: u64 = (neg as u64) / 1_000_000;
        proof {
            vstd::arithmetic::div_mod::lemma_div_is_ordered(
                neg as int,
                2 * POS_LIMIT as int,
                1_000_000,
            );
            vstd::arithmetic::div_mod::lemma_div_is_ordered(0, neg as int, 1_000_000);
        }
        -(q as i64)
    }
}

} // verus!
