//! Tuning constants for the simulation.
//!
//! Units: world positions are measured in micro-pixels (1 px =
//! 1_000_000 upx), velocities in milli-pixels per second (1 px/s =
//! 1000 mpxps), accelerations in whole pixels per second squared, and time
//! in milliseconds. With these units every integration step is an exact
//! integer product: `velocity * delta` is in micro-pixels and
//! `acceleration * delta` is in milli-pixels per second.

use vstd::prelude::*;

verus! {

/// Downward acceleration applied to the player every tick, in px/s^2.
pub const GRAVITY: i64 = 1000;

/// Vertical velocity set on a jump impulse, in milli-pixels per second
/// (negative is up).
pub const JUMP_VELOCITY: i64 = -500_000;

/// Seconds between day/night display inversions while playing.
pub const DAY_NIGHT_CYCLE_SECS: i64 = 30;

/// One pixel in micro-pixel position units.
pub const PX: i64 = 1_000_000;

/// One pixel per second in milli-pixel-per-second velocity units.
pub const PXPS: i64 = 1000;

/// Display width, in micro-pixels (400 px).
pub const DISPLAY_WIDTH_UPX: i64 = 400_000_000;

/// Display height, in micro-pixels (240 px).
pub const DISPLAY_HEIGHT_UPX: i64 = 240_000_000;

/// The simulation clamps every position into [-POS_LIMIT, POS_LIMIT]
/// micro-pixels; the playable world is smaller by many orders of
/// magnitude, and the bound keeps all arithmetic inside i64.
pub const POS_LIMIT: i64 = 1_000_000_000_000_000;

/// The simulation clamps every velocity into [-VEL_LIMIT, VEL_LIMIT]
/// milli-pixels per second.
pub const VEL_LIMIT: i64 = 1_000_000_000_000;

} // verus!
