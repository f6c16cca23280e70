//! Runtime core of a side-scrolling reflex game: a generic animation
//! state machine, vertical physics and pixel-accurate collision for the
//! player, scroll-and-recycle engines for ground, obstacles and background
//! items, and the top-level game state machine that ties them together.
//!
//! The simulation is exact integer arithmetic: world positions are in
//! micro-pixels, velocities in milli-pixels per second, and time deltas in
//! milliseconds, so one tick of position integration (`velocity * delta`)
//! and one tick of acceleration (`acceleration * delta`) are both exact
//! products with no rounding. The host (renderer, input polling, audio,
//! storage, random numbers) sits outside: callers feed plain values in and
//! receive the tick's effects back as plain values.

use vstd::prelude::*;

pub mod args;
pub mod geom;
pub mod collision;
pub mod animation;
pub mod ground;
pub mod obstacle;
pub mod bg_items;
pub mod dino;
pub mod scoreboard;
pub mod mask;
pub mod ui_layer;
pub mod game;

verus! {

/// Top-level game state: the orchestrator starts `Ready`, enters `Playing`
/// on a confirm press, and `Dead` when the player collides with an
/// obstacle; a confirm press while `Dead` restarts.
#[derive(Clone, Copy, PartialEq, Eq, PartialOrd, Ord, Debug, Structural)]
pub enum GameState {
    Ready,
    Playing,
    Dead,
}

} // verus!
