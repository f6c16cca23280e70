//! The endless scrolling ground: two tile segments, one always exactly
//! one tile width to the right of the other, moving left at a shared
//! velocity that grows over time. When the segment being watched crosses
//! the world origin, the other segment is repositioned one tile to its
//! right and the two swap roles, so the pair covers the visible world
//! forever. The shared velocity is the world scroll speed every other
//! mover consumes.

use vstd::prelude::*;

use crate::args::{POS_LIMIT, VEL_LIMIT};
use crate::geom::{advanced_pos, advanced_vel, integrate, accelerate};
use crate::GameState;

verus! {

/// Width of one ground tile, in micro-pixels (2400 px).
pub const GROUND_TILE_WIDTH_UPX: i64 = 2_400_000_000;

/// The ground strip's y coordinate, in micro-pixels: display height
/// minus the ground height of 64 px.
pub const GROUND_Y_UPX: i64 = 176_000_000;

/// Height of the collidable part of the ground, in micro-pixels
/// (64 px minus an 18 px fringe).
pub const GROUND_COLLIDE_HEIGHT_UPX: i64 = 46_000_000;

/// Scroll velocity right after a reset, in milli-pixels per second
/// (10 px/s).
pub const INITIAL_GROUND_VELOCITY: i64 = 10_000;

/// How fast the scroll velocity grows, in px/s^2.
pub const GROUND_ACCELERATION: i64 = 10;

/// The two ground segments and the shared scroll velocity.
pub struct Ground {
    /// Left edge of the segment currently covering the left of the
    /// world, in micro-pixels.
    pub slot0_x: i64,
    /// Left edge of the other segment, always one tile to the right.
    pub slot1_x: i64,
    /// Scroll speed, in milli-pixels per second.
    pub horizontal_velocity: i64,
}

/// Mathematical view of [`Ground`].
pub struct GroundView {
    pub slot0_x: int,
    pub slot1_x: int,
    pub velocity: int,
}

impl View for Ground {
    type V = GroundView;

    open spec fn view(&self) -> GroundView {
        GroundView {
            slot0_x: self.slot0_x as int,
            slot1_x: self.slot1_x as int,
            velocity: self.horizontal_velocity as int,
        }
    }
}

impl GroundView {
    /// Both segments sit in the coordinate domain, exactly one tile
    /// apart, and the velocity is at least its initial value.
    pub open spec fn wf(self) -> bool {
        &&& -POS_LIMIT <= self.slot0_x
        &&& self.slot1_x == self.slot0_x + GROUND_TILE_WIDTH_UPX
        &&& self.slot1_x <= POS_LIMIT
        &&& INITIAL_GROUND_VELOCITY <= self.velocity <= VEL_LIMIT
    }
}

/// One playing tick of the ground: both segments move left by
/// `velocity * delta`; if the watched segment's left edge reaches the
/// world origin, the other is repositioned one tile to its right and
/// the roles swap; then the velocity grows by `acceleration * delta`.
pub open spec fn ground_step(g: GroundView, delta: int) -> GroundView {
    let a1 = advanced_pos(g.slot0_x, -g.velocity, delta);
    let b1 = advanced_pos(g.slot1_x, -g.velocity, delta);
    let v1 = advanced_vel(g.velocity, GROUND_ACCELERATION as int, delta);
    if b1 <= 0 {
        GroundView { slot0_x: b1, slot1_x: b1 + GROUND_TILE_WIDTH_UPX, velocity: v1 }
    } else {
        GroundView { slot0_x: a1, slot1_x: b1, velocity: v1 }
    }
}

impl Ground {
    /// A freshly reset ground: segments at 0 and one tile width, at the
    /// initial scroll velocity.
    pub fn new() -> (g: Ground)
        ensures
            g@ == (GroundView {
                slot0_x: 0,
                slot1_x: GROUND_TILE_WIDTH_UPX as int,
                velocity: INITIAL_GROUND_VELOCITY as int,
            }),
            g@.wf(),
    {
        let mut g = Ground { slot0_x: 0, slot1_x: 0, horizontal_velocity: 0 };
        g.reset();
        g
    }

    /// Reposition the segments at 0 and one tile width and restart the
    /// velocity at its initial constant (used on game start).
    pub fn reset(&mut self)
        ensures
            final(self)@ == (GroundView {
                slot0_x: 0,
                slot1_x: GROUND_TILE_WIDTH_UPX as int,
                velocity: INITIAL_GROUND_VELOCITY as int,
            }),
            final(self)@.wf(),
    {
        self.slot0_x = 0;
        self.slot1_x = GROUND_TILE_WIDTH_UPX;
        self.horizontal_velocity = INITIAL_GROUND_VELOCITY;
    }

    /// The current world scroll velocity, in milli-pixels per second:
    /// the single source of horizontal motion for obstacles and
    /// background items.
    pub fn get_velocity(&self) -> (v: i64)
        ensures
            v == self@.velocity,
    {
        self.horizontal_velocity
    }

    /// One tick. Outside the `Playing` state the ground holds still.
    pub fn update(&mut self, delta: i64, state: GameState)
        requires
            old(self)@.wf(),
            0 <= delta,
        ensures
            final(self)@.wf(),
            state != GameState::Playing ==> final(self)@ == old(self)@,
            state == GameState::Playing ==> final(self)@ == ground_step(
                old(self)@,
                delta as int,
            ),
    {
        if state != GameState::Playing {
            return;
        }
        let neg_v: i64 = -self.horizontal_velocity;
        let a1: i64 = integrate(self.slot0_x, neg_v, delta);
        let b1: i64 = integrate(self.slot1_x, neg_v, delta);
        let v1: i64 = accelerate(self.horizontal_velocity, GROUND_ACCELERATION, delta);
        proof {
            lemma_ground_step_wf(old(self)@, delta as int);
        }
        if b1 <= 0 {
            self.slot0_x = b1;
            self.slot1_x = b1 + GROUND_TILE_WIDTH_UPX;
        } else {
            self.slot0_x = a1;
            self.slot1_x = b1;
        }
        self.horizontal_velocity = v1;
    }
}

/// One ground step keeps the ground well formed: the segments stay one
/// tile apart inside the coordinate domain and the velocity never
/// shrinks.
pub proof fn lemma_ground_step_wf(g: GroundView, delta: int)
    requires
        g.wf(),
        0 <= delta,
    ensures
        ground_step(g, delta).wf(),
        ground_step(g, delta).velocity >= g.velocity,
{
    let s = g.velocity * delta;
    assert(g.velocity * delta >= 0) by (nonlinear_arith)
        requires
            g.velocity >= 0,
            0 <= delta,
    ;
    let a1 = advanced_pos(g.slot0_x, -g.velocity, delta);
    let b1 = advanced_pos(g.slot1_x, -g.velocity, delta);
    assert((-g.velocity) * delta == -(g.velocity * delta)) by (nonlinear_arith);
    if b1 > 0 {
        // The watched segment was not clamped (an upper clamp cannot
        // engage while moving left, and a lower clamp would have put it
        // at the domain floor, below zero), so neither was the other,
        // and the one-tile gap is preserved exactly.
        assert(b1 == g.slot1_x - s);
        assert(a1 == g.slot0_x - s);
    }
}

/// Ground wraparound: while playing, with a tick of at least one
/// millisecond that does not run into the domain floor, both segments
/// scroll strictly left; the watched segment reaching the world origin
/// is the single swap event of the tick, after which the repositioned
/// segment sits exactly one tile width to the right of the segment that
/// crossed.
pub proof fn lemma_ground_wraparound(g: GroundView, delta: int)
    requires
        g.wf(),
        1 <= delta,
        -POS_LIMIT <= g.slot0_x - g.velocity * delta,
    ensures
        ({
            let moved1 = g.slot1_x - g.velocity * delta;
            let s = ground_step(g, delta);
            &&& s.slot1_x == s.slot0_x + GROUND_TILE_WIDTH_UPX
            &&& moved1 > 0 ==> s.slot0_x < g.slot0_x && s.slot1_x < g.slot1_x
            &&& moved1 <= 0 ==> s.slot0_x == moved1 && s.slot1_x == moved1
                + GROUND_TILE_WIDTH_UPX
            &&& s.velocity >= g.velocity
        }),
{
    let step = g.velocity * delta;
    assert(g.velocity * delta >= g.velocity) by (nonlinear_arith)
        requires
            g.velocity >= 0,
            1 <= delta,
    ;
    assert((-g.velocity) * delta == -(g.velocity * delta)) by (nonlinear_arith);
    lemma_ground_step_wf(g, delta);
}

} // verus!
