//! The animation state machine driven directly through the player's
//! state type: transitions, the swap-and-restart on a state change,
//! registration overwrite, and the reset law.

use dino_runner::animation::{BitmapAnimation, TableInfo};
use dino_runner::collision::PixelMask;
use dino_runner::dino::{Dino, DinoInput, DinoState};
use dino_runner::GameState;

fn machine_of_dino() -> Dino {
    Dino::new(PixelMask::solid(80, 47, true))
}

fn playing_input() -> DinoInput {
    DinoInput { game: GameState::Playing, a_pushed: false, b_held: false, landed: true }
}

#[test]
fn machine_starts_in_the_initial_state() {
    let d = machine_of_dino();
    assert_eq!(d.animations.get_current_state(), DinoState::Idle);
}

#[test]
fn machine_transitions_and_restarts_the_incoming_animation() {
    let mut d = machine_of_dino();
    // Age the Run animation by registering time on it later; first
    // move Idle -> Run and play 200 ms: the Run loop advances.
    d.animations.update(200, &playing_input());
    assert_eq!(d.animations.get_current_state(), DinoState::Run);
    // Run's 200 ms loop advanced to its second frame on this tick.
    let run_slot = d
        .animations
        .state_keys
        .iter()
        .position(|s| *s == DinoState::Run)
        .unwrap();
    assert_eq!(d.animations.anims[run_slot].current_frame, 1);
    // Duck, then stand back up: Run's animation was restarted when it
    // was swapped back in.
    let duck = DinoInput { game: GameState::Playing, a_pushed: false, b_held: true, landed: true };
    d.animations.update(50, &duck);
    assert_eq!(d.animations.get_current_state(), DinoState::Duck);
    d.animations.update(50, &playing_input());
    assert_eq!(d.animations.get_current_state(), DinoState::Run);
    assert_eq!(d.animations.anims[run_slot].current_frame, 0);
    assert_eq!(d.animations.anims[run_slot].current_time, 50);
}

#[test]
fn machine_stay_decision_keeps_the_state() {
    let mut d = machine_of_dino();
    let ready = DinoInput { game: GameState::Ready, a_pushed: false, b_held: false, landed: true };
    d.animations.update(100, &ready);
    assert_eq!(d.animations.get_current_state(), DinoState::Idle);
}

#[test]
fn machine_update_returns_the_drawn_table_frame() {
    let mut d = machine_of_dino();
    // Idle plays table frames [1, 2] at 500 ms; a 100 ms Ready tick
    // stays on the first.
    let ready = DinoInput { game: GameState::Ready, a_pushed: false, b_held: false, landed: true };
    let drawn = d.animations.update(100, &ready);
    assert_eq!(drawn, 1);
    let drawn2 = d.animations.update(400, &ready);
    assert_eq!(drawn2, 2);
}

#[test]
fn add_state_overwrites_an_existing_binding() {
    let mut d = machine_of_dino();
    let n_before = d.animations.state_keys.len();
    let table = TableInfo { frame_count: 8, frame_width: 160, frame_height: 94 };
    let replacement = BitmapAnimation::new(table, vec![7], 250, 500);
    d.animations.add_state(DinoState::Idle, replacement);
    // Same states registered, one animation replaced.
    assert_eq!(d.animations.state_keys.len(), n_before);
    let idle_slot = d
        .animations
        .state_keys
        .iter()
        .position(|s| *s == DinoState::Idle)
        .unwrap();
    assert_eq!(d.animations.anims[idle_slot].frames, vec![7]);
    assert_eq!(d.animations.anims[idle_slot].frame_time, 250);
}

#[test]
fn reset_restores_initial_state_and_rewinds_every_animation() {
    let mut d = machine_of_dino();
    d.animations.update(200, &playing_input());
    d.animations.update(200, &playing_input());
    assert_eq!(d.animations.get_current_state(), DinoState::Run);
    d.animations.reset();
    assert_eq!(d.animations.get_current_state(), DinoState::Idle);
    for a in &d.animations.anims {
        assert_eq!(a.current_frame, 0);
        assert_eq!(a.current_time, 0);
    }
}
