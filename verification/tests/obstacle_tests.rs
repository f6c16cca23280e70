//! Obstacles: random-kind selection, spawn placement, scrolling, and
//! the cull-and-respawn policy that never leaves the pool empty.

use dino_runner::animation::TableInfo;
use dino_runner::collision::PixelMask;
use dino_runner::obstacle::{Obstacle, ObstacleImages, ObstacleKind, Obstacles};
use dino_runner::GameState;

fn images() -> ObstacleImages {
    ObstacleImages {
        bird: TableInfo { frame_count: 2, frame_width: 92, frame_height: 68 },
        bird_mask: PixelMask::solid(46, 34, true),
        cactus_small1: PixelMask::solid(17, 35, true),
        cactus_small2: PixelMask::solid(34, 35, true),
        cactus_small3: PixelMask::solid(51, 35, true),
        cactus_big1: PixelMask::solid(25, 50, true),
        cactus_big2: PixelMask::solid(50, 50, true),
        cactus_big3: PixelMask::solid(75, 50, true),
    }
}

#[test]
fn kind_from_rand_is_uniform_over_the_eight_kinds() {
    assert_eq!(ObstacleKind::from_rand(0), ObstacleKind::Bird);
    assert_eq!(ObstacleKind::from_rand(1), ObstacleKind::LowBird);
    assert_eq!(ObstacleKind::from_rand(2), ObstacleKind::CactusSmall1);
    assert_eq!(ObstacleKind::from_rand(5), ObstacleKind::CactusBig1);
    assert_eq!(ObstacleKind::from_rand(7), ObstacleKind::CactusBig3);
    assert_eq!(ObstacleKind::from_rand(8), ObstacleKind::Bird);
    assert_eq!(ObstacleKind::from_rand(18), ObstacleKind::CactusSmall1);
}

#[test]
fn cactus_spawns_on_the_ground_at_the_right_edge() {
    let imgs = images();
    let o = Obstacle::new(&imgs, 2);
    assert_eq!(o.kind, ObstacleKind::CactusSmall1);
    assert_eq!(o.bounds.x, 400_000_000);
    // Bottom edge on the collidable ground: 194 px; mask is 17x35 px.
    assert_eq!(o.bounds.y, 194_000_000 - 35_000_000);
    assert_eq!(o.bounds.w, 17_000_000);
    assert_eq!(o.bounds.h, 35_000_000);
    assert!(o.anim.is_none());
}

#[test]
fn bird_spawns_at_its_fixed_height_with_flap_animation() {
    let imgs = images();
    let o = Obstacle::new(&imgs, 0);
    assert_eq!(o.kind, ObstacleKind::Bird);
    assert_eq!(o.bounds.x, 400_000_000);
    assert_eq!(o.bounds.y, 122_000_000);
    assert_eq!(o.bounds.w, 46_000_000);
    assert_eq!(o.bounds.h, 34_000_000);
    let anim = o.anim.as_ref().expect("birds animate");
    assert_eq!(anim.frames, vec![0, 1]);
    assert_eq!(anim.frame_time, 100);
}

#[test]
fn low_bird_spawns_lower() {
    let imgs = images();
    let o = Obstacle::new(&imgs, 1);
    assert_eq!(o.bounds.y, 148_000_000);
}

#[test]
fn obstacle_scrolls_left_by_the_world_velocity() {
    let imgs = images();
    let mut o = Obstacle::new(&imgs, 2);
    // 250 px/s for 200 ms moves 50 px left.
    o.update(200, GameState::Playing, 250_000);
    assert_eq!(o.bounds.x, 400_000_000 - 50_000_000);
    // Not playing: holds still.
    o.update(200, GameState::Ready, 250_000);
    assert_eq!(o.bounds.x, 400_000_000 - 50_000_000);
}

#[test]
fn empty_pool_spawns_exactly_one_obstacle() {
    let mut pool = Obstacles::new(images());
    assert_eq!(pool.obstacles.len(), 0);
    pool.update(100, GameState::Ready, 10_000, 2);
    assert_eq!(pool.obstacles.len(), 1);
    // A non-empty pool does not spawn another.
    pool.update(100, GameState::Ready, 10_000, 3);
    assert_eq!(pool.obstacles.len(), 1);
}

#[test]
fn offscreen_obstacle_is_culled_and_replaced_the_same_tick() {
    let mut pool = Obstacles::new(images());
    pool.update(100, GameState::Playing, 10_000, 2);
    assert_eq!(pool.obstacles.len(), 1);
    // 500 px/s for 1 s carries the 17 px cactus from x=400-1=399ish
    // past the left edge: right edge < 0, culled, and one new
    // obstacle spawned at the right edge on the same tick.
    pool.update(1000, GameState::Playing, 500_000, 0);
    assert_eq!(pool.obstacles.len(), 1);
    assert_eq!(pool.obstacles[0].kind, ObstacleKind::Bird);
    assert_eq!(pool.obstacles[0].bounds.x, 400_000_000);
}

#[test]
fn pool_is_never_left_empty_and_never_sticks_out_left() {
    let mut pool = Obstacles::new(images());
    let mut rand: u64 = 0;
    for tick in 0..2000 {
        rand = rand.wrapping_mul(6364136223846793005).wrapping_add(tick);
        pool.update(100, GameState::Playing, 300_000, rand);
        assert!(pool.obstacles.len() >= 1);
        for o in &pool.obstacles {
            assert!(o.bounds.x + o.bounds.w >= 0);
        }
    }
}

#[test]
fn reset_empties_the_pool() {
    let mut pool = Obstacles::new(images());
    pool.update(100, GameState::Playing, 10_000, 2);
    pool.reset();
    assert_eq!(pool.obstacles.len(), 0);
}
