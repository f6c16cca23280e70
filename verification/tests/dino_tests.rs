//! The player: state transitions, jump physics, the resting clamp,
//! the duck collision shape, and collision-driven death.

use dino_runner::animation::TableInfo;
use dino_runner::collision::PixelMask;
use dino_runner::dino::{Dino, DinoState};
use dino_runner::obstacle::{ObstacleImages, Obstacles};
use dino_runner::GameState;

const RESTING_Y: i64 = 170_500_000;

fn dino() -> Dino {
    Dino::new(PixelMask::solid(80, 47, true))
}

fn images() -> ObstacleImages {
    ObstacleImages {
        bird: TableInfo { frame_count: 2, frame_width: 92, frame_height: 68 },
        bird_mask: PixelMask::solid(46, 34, true),
        cactus_small1: PixelMask::solid(17, 35, true),
        cactus_small2: PixelMask::solid(34, 35, true),
        cactus_small3: PixelMask::solid(51, 35, true),
        cactus_big1: PixelMask::solid(25, 50, true),
        cactus_big2: PixelMask::solid(50, 50, true),
        cactus_big3: PixelMask::solid(75, 50, true),
    }
}

fn empty_pool() -> Obstacles {
    Obstacles::new(images())
}

/// A pool holding one solid cactus moved onto the player.
fn pool_on_player() -> Obstacles {
    let mut pool = empty_pool();
    // Spawn a 17x35 px cactus at the right edge...
    pool.update(100, GameState::Ready, 10_000, 2);
    // ...and scroll it 350 px left in one playing second: x = 50 px,
    // overlapping the player's bounds at x in [20, 100].
    pool.update(1000, GameState::Playing, 350_000, 2);
    assert_eq!(pool.obstacles[0].bounds.x, 50_000_000);
    pool
}

#[test]
fn dino_starts_idle_at_rest() {
    let d = dino();
    assert_eq!(d.pos_y, RESTING_Y);
    assert_eq!(d.vertical_velocity, 0);
    assert_eq!(d.animations.get_current_state(), DinoState::Idle);
}

#[test]
fn dino_idles_while_ready() {
    let mut d = dino();
    let mut game = GameState::Ready;
    let pool = empty_pool();
    let fx = d.update(100, &mut game, false, false, &pool);
    assert_eq!(d.animations.get_current_state(), DinoState::Idle);
    assert_eq!(d.pos_y, RESTING_Y);
    assert!(!fx.jump_audio);
    assert!(!fx.dead_audio);
    assert_eq!(game, GameState::Ready);
}

#[test]
fn dino_hops_out_of_idle_when_play_begins() {
    // The Idle -> Run edge fires the jump impulse and the jump audio:
    // velocity -500_000 + gravity 1000 * 100 ms = -400_000 milli-px/s,
    // moving the center up by 40 px in this 100 ms tick.
    let mut d = dino();
    let mut game = GameState::Playing;
    let pool = empty_pool();
    let fx = d.update(100, &mut game, false, false, &pool);
    assert_eq!(d.animations.get_current_state(), DinoState::Run);
    assert!(fx.jump_audio);
    assert_eq!(d.vertical_velocity, -400_000);
    assert_eq!(d.pos_y, RESTING_Y - 40_000_000);
}

#[test]
fn dino_jumps_on_confirm_while_running() {
    let mut d = dino();
    let mut game = GameState::Playing;
    let pool = empty_pool();
    d.update(100, &mut game, false, false, &pool);
    // Land again before jumping.
    while d.pos_y != RESTING_Y {
        d.update(100, &mut game, false, false, &pool);
    }
    assert_eq!(d.animations.get_current_state(), DinoState::Run);
    let fx = d.update(100, &mut game, true, false, &pool);
    assert_eq!(d.animations.get_current_state(), DinoState::Jump);
    assert!(fx.jump_audio);
    assert!(d.pos_y < RESTING_Y);
}

#[test]
fn dino_never_sinks_below_resting_y() {
    // The clamp holds under absurdly large ticks and any button mix.
    let mut d = dino();
    let mut game = GameState::Playing;
    let pool = empty_pool();
    for tick in 0..200u64 {
        let a = tick % 7 == 0;
        let b = tick % 3 == 0;
        d.update(5_000, &mut game, a, b, &pool);
        assert!(d.pos_y <= RESTING_Y);
    }
}

#[test]
fn dino_rests_with_zero_velocity() {
    // Fall back to the ground: once the y stops changing the velocity
    // is zeroed, so no energy accumulates while resting.
    let mut d = dino();
    let mut game = GameState::Playing;
    let pool = empty_pool();
    for _ in 0..100 {
        d.update(100, &mut game, false, false, &pool);
    }
    assert_eq!(d.pos_y, RESTING_Y);
    assert_eq!(d.vertical_velocity, 0);
}

#[test]
fn dino_ducks_with_the_short_wide_collision_shape() {
    let mut d = dino();
    let mut game = GameState::Playing;
    let pool = empty_pool();
    d.update(100, &mut game, false, false, &pool);
    while d.pos_y != RESTING_Y {
        d.update(100, &mut game, false, false, &pool);
    }
    d.update(100, &mut game, false, true, &pool);
    assert_eq!(d.animations.get_current_state(), DinoState::Duck);
    assert_eq!(d.collide_rect.x, 10_500_000);
    assert_eq!(d.collide_rect.y, 17_000_000);
    assert_eq!(d.collide_rect.w, 59_000_000);
    assert_eq!(d.collide_rect.h, 30_000_000);
    // Releasing the button stands back up with the standard shape.
    d.update(100, &mut game, false, false, &pool);
    assert_eq!(d.animations.get_current_state(), DinoState::Run);
    assert_eq!(d.collide_rect.x, 18_000_000);
    assert_eq!(d.collide_rect.h, 47_000_000);
}

#[test]
fn overlapping_obstacle_kills_exactly_once() {
    let mut d = dino();
    let mut game = GameState::Playing;
    let empty = empty_pool();
    // Settle into Run on the ground first.
    for _ in 0..100 {
        d.update(100, &mut game, false, false, &empty);
    }
    let pool = pool_on_player();
    let fx = d.update(10, &mut game, false, false, &pool);
    assert_eq!(game, GameState::Dead);
    assert!(fx.dead_audio);
    // Already dead: the state does not re-trigger and no further
    // death audio fires.
    let fx2 = d.update(10, &mut game, false, false, &pool);
    assert_eq!(game, GameState::Dead);
    assert!(!fx2.dead_audio);
    assert_eq!(d.animations.get_current_state(), DinoState::Dead);
}

#[test]
fn dead_to_run_edge_repositions_and_zeroes_velocity() {
    let mut d = dino();
    let mut game = GameState::Playing;
    let empty = empty_pool();
    for _ in 0..100 {
        d.update(100, &mut game, false, false, &empty);
    }
    let pool = pool_on_player();
    d.update(10, &mut game, false, false, &pool);
    d.update(10, &mut game, false, false, &pool);
    assert_eq!(d.animations.get_current_state(), DinoState::Dead);
    // Flip the game back to Playing without resetting the player: the
    // Dead -> Run edge repositions the sprite at rest and zeroes the
    // velocity; resting through the tick keeps it zero.
    game = GameState::Playing;
    d.update(10, &mut game, false, false, &empty);
    assert_eq!(d.animations.get_current_state(), DinoState::Run);
    assert_eq!(d.pos_y, RESTING_Y);
    assert_eq!(d.vertical_velocity, 0);
}

#[test]
fn reset_restores_idle_at_rest() {
    let mut d = dino();
    let mut game = GameState::Playing;
    let pool = empty_pool();
    d.update(100, &mut game, true, false, &pool);
    d.update(100, &mut game, false, false, &pool);
    d.reset();
    assert_eq!(d.animations.get_current_state(), DinoState::Idle);
    assert_eq!(d.pos_y, RESTING_Y);
    // Every registered animation rewound to frame zero.
    for a in &d.animations.anims {
        assert_eq!(a.current_frame, 0);
        assert_eq!(a.current_time, 0);
    }
}
