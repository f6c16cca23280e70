//! Background clouds: spawn placement from random draws, exact
//! parallax motion, and the continuous-supply policy.

use dino_runner::bg_items::{BGItem, BGItems};
use dino_runner::GameState;

#[test]
fn cloud_spawns_from_the_random_draws() {
    let b = BGItem::new(0, 0);
    assert_eq!(b.bounds.x, 400_000_000);
    assert_eq!(b.bounds.y, 32_000_000);
    assert_eq!(b.bounds.w, 46_000_000);
    assert_eq!(b.bounds.h, 14_000_000);
    // The draws wrap at the spawn ranges: one display width minus the
    // cloud and margin horizontally, the upper half vertically.
    let c = BGItem::new(322_000_001, 88_000_001);
    assert_eq!(c.bounds.x, 400_000_000);
    assert_eq!(c.bounds.y, 32_000_000);
    let d = BGItem::new(322_000_000, 88_000_000);
    assert_eq!(d.bounds.x, 722_000_000);
    assert_eq!(d.bounds.y, 120_000_000);
}

#[test]
fn cloud_moves_at_three_tenths_of_the_scroll_velocity() {
    let mut b = BGItem::new(0, 0);
    // 10 px/s scroll for 1 s: the cloud drifts 3 px left.
    b.update(1000, GameState::Playing, 10_000);
    assert_eq!(b.bounds.x, 400_000_000 - 3_000_000);
    // Truncation: 5 px/s for 100 ms is 150_000 micro-px exactly.
    let mut c = BGItem::new(0, 0);
    c.update(100, GameState::Playing, 5_000);
    assert_eq!(c.bounds.x, 400_000_000 - 150_000);
    // Not playing: holds still.
    b.update(1000, GameState::Ready, 10_000);
    assert_eq!(b.bounds.x, 400_000_000 - 3_000_000);
}

#[test]
fn layer_spawns_when_nothing_lies_beyond_the_right_edge() {
    let mut layer = BGItems::new();
    layer.update(100, GameState::Ready, 10_000, 0, 0);
    assert_eq!(layer.items.len(), 1);
    // The fresh cloud still lies beyond the right edge, so no second
    // spawn happens.
    layer.update(100, GameState::Ready, 10_000, 7, 7);
    assert_eq!(layer.items.len(), 1);
}

#[test]
fn layer_keeps_a_supply_of_incoming_clouds() {
    let mut layer = BGItems::new();
    let mut rand: u64 = 1;
    for tick in 0..5000 {
        rand = rand.wrapping_mul(6364136223846793005).wrapping_add(tick);
        layer.update(100, GameState::Playing, 400_000, rand, rand >> 7);
        assert!(layer.items.len() >= 1);
        // Some cloud always still lies beyond the right edge, and
        // none has scrolled past the world origin.
        assert!(layer.items.iter().any(|b| b.bounds.x + b.bounds.w > 400_000_000));
        for b in &layer.items {
            assert!(b.bounds.x + b.bounds.w >= 0);
        }
    }
}

#[test]
fn reset_empties_the_layer() {
    let mut layer = BGItems::new();
    layer.update(100, GameState::Ready, 10_000, 0, 0);
    layer.reset();
    assert_eq!(layer.items.len(), 0);
}
