//! The reveal curtain: two full-height white panels that cover the
//! scene outside the start area and slide apart while playing, exposing
//! the world. Purely cosmetic; the panels never collide with anything.

use vstd::prelude::*;

use crate::args::{DISPLAY_WIDTH_UPX, POS_LIMIT};
use crate::geom::{advanced_pos, integrate};
use crate::GameState;

verus! {

/// Width of one curtain panel, in micro-pixels (display width minus
/// 80 px).
pub const MASK_W_UPX: i64 = 320_000_000;

/// Half a panel's width.
pub const MASK_HALF_W_UPX: i64 = 160_000_000;

/// How fast a panel slides open, in milli-pixels per second (500 px/s).
pub const MASK_SPEED: i64 = 500_000;

/// Initial center x of the left panel, in micro-pixels.
pub const MASK_LEFT_START_UPX: i64 = -140_000_000;

/// Initial center x of the right panel, in micro-pixels.
pub const MASK_RIGHT_START_UPX: i64 = 260_000_000;

/// The two curtain panels, by their center x coordinates.
pub struct Mask {
    pub left_x: i64,
    pub right_x: i64,
}

impl Mask {
    /// Both panels sit in the coordinate domain.
    pub open spec fn wf(self) -> bool {
        &&& -POS_LIMIT <= self.left_x <= POS_LIMIT
        &&& -POS_LIMIT <= self.right_x <= POS_LIMIT
    }

    /// Panels in their closed starting position.
    pub fn new() -> (m: Mask)
        ensures
            m.left_x == MASK_LEFT_START_UPX,
            m.right_x == MASK_RIGHT_START_UPX,
            m.wf(),
    {
        Mask { left_x: MASK_LEFT_START_UPX, right_x: MASK_RIGHT_START_UPX }
    }

    /// One tick: while playing, a panel that still covers part of the
    /// display slides further out; once fully off screen it stops.
    pub fn update(&mut self, delta: i64, state: GameState)
        requires
            old(self).wf(),
            0 <= delta,
        ensures
            final(self).wf(),
            state != GameState::Playing ==> *final(self) == *old(self),
            state == GameState::Playing ==> {
                &&& final(self).left_x == if old(self).left_x + MASK_HALF_W_UPX > 0 {
                    advanced_pos(old(self).left_x as int, -MASK_SPEED as int, delta as int)
                } else {
                    old(self).left_x as int
                }
                &&& final(self).right_x == if old(self).right_x - MASK_HALF_W_UPX
                    < DISPLAY_WIDTH_UPX {
                    advanced_pos(old(self).right_x as int, MASK_SPEED as int, delta as int)
                } else {
                    old(self).right_x as int
                }
            },
    {
        if !matches!(state, GameState::Playing) {
            return;
        }
        if self.left_x + MASK_HALF_W_UPX > 0 {
            self.left_x = integrate(self.left_x, -MASK_SPEED, delta);
        }
        if self.right_x - MASK_HALF_W_UPX < DISPLAY_WIDTH_UPX {
            self.right_x = integrate(self.right_x, MASK_SPEED, delta);
        }
    }
}

} // verus!
