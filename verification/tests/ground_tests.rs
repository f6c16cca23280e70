//! Ground scrolling: exact per-tick motion, acceleration, and the
//! wraparound swap that keeps the two tile segments covering the world.

use dino_runner::ground::Ground;
use dino_runner::GameState;

const TILE: i64 = 2_400_000_000;

#[test]
fn ground_initial_layout() {
    let g = Ground::new();
    assert_eq!(g.slot0_x, 0);
    assert_eq!(g.slot1_x, TILE);
    assert_eq!(g.get_velocity(), 10_000);
}

#[test]
fn ground_one_tick_exact() {
    // One second at the initial 10 px/s: both segments move 10 px
    // (10_000_000 micro-pixels) left, and the velocity grows by
    // 10 px/s^2 * 1 s = 10 px/s.
    let mut g = Ground::new();
    g.update(1000, GameState::Playing);
    assert_eq!(g.slot0_x, -10_000_000);
    assert_eq!(g.slot1_x, TILE - 10_000_000);
    assert_eq!(g.get_velocity(), 20_000);
}

#[test]
fn ground_holds_still_outside_playing() {
    let mut g = Ground::new();
    g.update(1000, GameState::Ready);
    g.update(1000, GameState::Dead);
    assert_eq!(g.slot0_x, 0);
    assert_eq!(g.slot1_x, TILE);
    assert_eq!(g.get_velocity(), 10_000);
}

#[test]
fn ground_reset_restores_layout() {
    let mut g = Ground::new();
    g.update(1000, GameState::Playing);
    g.reset();
    assert_eq!(g.slot0_x, 0);
    assert_eq!(g.slot1_x, TILE);
    assert_eq!(g.get_velocity(), 10_000);
}

#[test]
fn ground_wraparound_swaps_once_per_crossing() {
    // Scroll with 100 ms ticks across several tile widths: the
    // segments stay exactly one tile apart, positions strictly
    // decrease on every non-swap tick, and each crossing of the world
    // origin produces exactly one swap that repositions the leading
    // segment one tile to the right of the segment that crossed.
    let mut g = Ground::new();
    let mut swaps: u32 = 0;
    for _ in 0..40_000 {
        let s0 = g.slot0_x;
        let s1 = g.slot1_x;
        let v = g.get_velocity();
        g.update(100, GameState::Playing);
        // velocity (milli-px/s) times delta (ms) is the step in micro-px
        let moved1 = s1 - v * 100;
        assert_eq!(g.slot1_x, g.slot0_x + TILE);
        if moved1 <= 0 {
            swaps += 1;
            assert_eq!(g.slot0_x, moved1);
            assert_eq!(g.slot1_x, moved1 + TILE);
        } else {
            assert!(g.slot0_x < s0);
            assert!(g.slot1_x < s1);
        }
        assert!(g.get_velocity() >= v);
    }
    // 40_000 ticks at 100 ms is 4000 s; starting from 10 px/s with
    // 10 px/s^2 the ground crosses many tiles.
    assert!(swaps >= 3);
}
