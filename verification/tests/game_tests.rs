//! Whole-game scenarios: fresh start, death and restart, the day/night
//! timer, and the orchestrator's gating of every subsystem.

use dino_runner::animation::TableInfo;
use dino_runner::collision::PixelMask;
use dino_runner::dino::DinoState;
use dino_runner::game::{DinoGame, FrameInput, GameAssets};
use dino_runner::obstacle::ObstacleImages;
use dino_runner::GameState;

const RESTING_Y: i64 = 170_500_000;

fn assets() -> GameAssets {
    GameAssets {
        dino_mask: PixelMask::solid(80, 47, true),
        obstacle_images: ObstacleImages {
            bird: TableInfo { frame_count: 2, frame_width: 92, frame_height: 68 },
            bird_mask: PixelMask::solid(46, 34, true),
            cactus_small1: PixelMask::solid(17, 35, true),
            cactus_small2: PixelMask::solid(34, 35, true),
            cactus_small3: PixelMask::solid(51, 35, true),
            cactus_big1: PixelMask::solid(25, 50, true),
            cactus_big2: PixelMask::solid(50, 50, true),
            cactus_big3: PixelMask::solid(75, 50, true),
        },
    }
}

fn quiet_input(now_ms: i64) -> FrameInput {
    FrameInput { a_pushed: false, b_held: false, now_ms, rand_kind: 2, rand_bg_x: 5, rand_bg_y: 9 }
}

fn confirm_input(now_ms: i64) -> FrameInput {
    FrameInput { a_pushed: true, b_held: false, now_ms, rand_kind: 2, rand_bg_x: 5, rand_bg_y: 9 }
}

#[test]
fn game_starts_ready_and_idle() {
    let g = DinoGame::new(assets(), 0);
    assert_eq!(g.get_game_state(), GameState::Ready);
    assert_eq!(g.dino.pos_y, RESTING_Y);
    assert_eq!(g.ground.get_velocity(), 10_000);
    assert_eq!(g.scoreboard.record.value, 0);
}

#[test]
fn ticks_while_ready_do_not_start_play() {
    let mut g = DinoGame::new(assets(), 0);
    for t in 0..50i64 {
        let fx = g.update(100, quiet_input(t * 100));
        assert!(!fx.started);
    }
    assert_eq!(g.get_game_state(), GameState::Ready);
    assert_eq!(g.dino.pos_y, RESTING_Y);
    assert_eq!(g.scoreboard.get_score(), 0);
    // The spawners still seed themselves while ready.
    assert!(g.obstacles.obstacles.len() >= 1);
}

#[test]
fn fresh_start_resets_everything_and_begins_play() {
    let mut g = DinoGame::new(assets(), 0);
    g.update(100, quiet_input(0));
    // The explicit reset: every subsystem returns to its documented
    // initial value and the state flips to Playing.
    g.reset_and_start_game(5000);
    assert_eq!(g.get_game_state(), GameState::Playing);
    assert_eq!(g.dino.pos_y, RESTING_Y);
    assert_eq!(g.dino.animations.get_current_state(), DinoState::Idle);
    assert_eq!(g.ground.slot0_x, 0);
    assert_eq!(g.ground.slot1_x, 2_400_000_000);
    assert_eq!(g.ground.get_velocity(), 10_000);
    assert_eq!(g.obstacles.obstacles.len(), 0);
    assert_eq!(g.bg_items.items.len(), 0);
    assert_eq!(g.scoreboard.get_score(), 0);
    assert_eq!(g.last_invert_time_ms, 5000);
}

#[test]
fn confirm_press_while_ready_starts_playing_within_one_tick() {
    let mut g = DinoGame::new(assets(), 0);
    let fx = g.update(100, confirm_input(1000));
    assert!(fx.started);
    assert_eq!(g.get_game_state(), GameState::Playing);
    // The obstacle pool reseeds to non-empty within the same tick.
    assert_eq!(g.obstacles.obstacles.len(), 1);
    // The ground scrolled its first playing tick from the reset
    // values: 10 px/s for 100 ms is 1 px.
    assert_eq!(g.ground.slot0_x, -1_000_000);
    assert_eq!(g.ground.get_velocity(), 11_000);
    // The score started accumulating from zero.
    assert_eq!(g.scoreboard.accumulated_time_ms, 100);
}

#[test]
fn death_comes_from_an_obstacle_and_fires_audio_once() {
    let mut g = DinoGame::new(assets(), 0);
    g.update(100, confirm_input(0));
    let mut deaths: u32 = 0;
    let mut ticks: i64 = 1;
    while g.get_game_state() != GameState::Dead && ticks < 20_000 {
        let fx = g.update(100, quiet_input(ticks * 100));
        if fx.dead_audio {
            deaths += 1;
        }
        ticks += 1;
    }
    // With fully opaque art the first obstacle to reach the player
    // kills it.
    assert_eq!(g.get_game_state(), GameState::Dead);
    assert_eq!(deaths, 1);
    // Staying dead fires nothing and changes nothing.
    for t in 0..20i64 {
        let fx = g.update(100, quiet_input((ticks + t) * 100));
        assert!(!fx.dead_audio);
        assert_eq!(g.get_game_state(), GameState::Dead);
    }
    // Death persisted the session's score as the new best.
    assert!(g.scoreboard.record.value > 0);
}

#[test]
fn confirm_press_while_dead_restarts_playing() {
    let mut g = DinoGame::new(assets(), 0);
    g.update(100, confirm_input(0));
    let mut ticks: i64 = 1;
    while g.get_game_state() != GameState::Dead && ticks < 20_000 {
        g.update(100, quiet_input(ticks * 100));
        ticks += 1;
    }
    assert_eq!(g.get_game_state(), GameState::Dead);
    let record = g.scoreboard.record.value;
    let fx = g.update(100, confirm_input(ticks * 100));
    assert!(fx.started);
    assert_eq!(g.get_game_state(), GameState::Playing);
    // The player was repositioned at rest by the restart (the tick's
    // initial hop then lifts it, never below the resting y).
    assert!(g.dino.pos_y <= RESTING_Y);
    assert_eq!(g.dino.animations.get_current_state(), DinoState::Run);
    // The session score restarted; the best score survived.
    assert_eq!(g.scoreboard.accumulated_time_ms, 100);
    assert_eq!(g.scoreboard.record.value, record);
}

#[test]
fn player_never_sinks_below_resting_y_in_game() {
    let mut g = DinoGame::new(assets(), 0);
    g.update(100, confirm_input(0));
    for t in 1..500i64 {
        let input = FrameInput {
            a_pushed: t % 11 == 0,
            b_held: t % 5 == 0,
            now_ms: t * 100,
            rand_kind: (t as u64) % 8,
            rand_bg_x: t as u64,
            rand_bg_y: (t as u64) * 31,
        };
        g.update(100, input);
        assert!(g.dino.pos_y <= RESTING_Y);
        assert!(g.obstacles.obstacles.len() >= 1);
    }
}

#[test]
fn day_night_flips_after_the_cycle_and_only_while_playing() {
    let mut g = DinoGame::new(assets(), 0);
    // Not playing: the timer never fires.
    let fx = g.update(100, quiet_input(100_000));
    assert_eq!(fx.set_inverted, None);
    // Start at t=100s; the cycle is 30 s.
    g.update(100, confirm_input(100_000));
    let fx1 = g.update(100, quiet_input(120_000));
    assert_eq!(fx1.set_inverted, None);
    let fx2 = g.update(100, quiet_input(130_100));
    assert_eq!(fx2.set_inverted, Some(true));
    assert!(g.inverted);
    // The timer restarted at the flip.
    let fx3 = g.update(100, quiet_input(140_000));
    assert_eq!(fx3.set_inverted, None);
    let fx4 = g.update(100, quiet_input(160_200));
    assert_eq!(fx4.set_inverted, Some(false));
    assert!(!g.inverted);
}
