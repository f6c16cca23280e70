//! Scoreboard: score accumulation, the achievement chime, and the
//! persisted best score.

use dino_runner::scoreboard::{MaxRecord, Scoreboard};
use dino_runner::GameState;

#[test]
fn record_keeps_its_maximum() {
    let mut r = MaxRecord::new(100);
    assert_eq!(r.get(), 100);
    assert_eq!(r.update(50), None);
    assert_eq!(r.get(), 100);
    assert_eq!(r.update(150), Some(150));
    assert_eq!(r.get(), 150);
    // Equal scores do not rewrite the record.
    assert_eq!(r.update(150), None);
}

#[test]
fn score_is_ten_points_per_second() {
    let mut s = Scoreboard::new(0);
    s.update(2500, GameState::Playing, true);
    assert_eq!(s.get_score(), 25);
    // Truncation: 90 ms more is not yet another point.
    s.update(90, GameState::Playing, true);
    assert_eq!(s.get_score(), 25);
    s.update(10, GameState::Playing, true);
    assert_eq!(s.get_score(), 26);
}

#[test]
fn score_only_accumulates_while_playing() {
    let mut s = Scoreboard::new(0);
    s.update(1000, GameState::Ready, true);
    s.update(1000, GameState::Dead, true);
    assert_eq!(s.get_score(), 0);
}

#[test]
fn achievement_fires_on_every_hundredth_score() {
    let mut s = Scoreboard::new(0);
    // 10 s of play: score 100.
    let fx = s.update(10_000, GameState::Playing, true);
    assert_eq!(s.get_score(), 100);
    assert!(fx.achievement_audio);
    // Score 101: no chime.
    let fx2 = s.update(100, GameState::Playing, true);
    assert!(!fx2.achievement_audio);
    // Audio disabled: no chime even at a hundredth score.
    let mut muted = Scoreboard::new(0);
    let fx3 = muted.update(10_000, GameState::Playing, false);
    assert!(!fx3.achievement_audio);
    // Score zero never chimes.
    let mut z = Scoreboard::new(0);
    let fx4 = z.update(0, GameState::Playing, true);
    assert!(!fx4.achievement_audio);
}

#[test]
fn death_persists_a_new_best_score_once() {
    let mut s = Scoreboard::new(10);
    s.update(5000, GameState::Playing, true);
    assert_eq!(s.get_score(), 50);
    let fx = s.update(0, GameState::Dead, true);
    assert_eq!(fx.persist_record, Some(50));
    assert_eq!(s.record.value, 50);
    // Staying dead does not rewrite the unchanged best score.
    let fx2 = s.update(100, GameState::Dead, true);
    assert_eq!(fx2.persist_record, None);
}

#[test]
fn death_below_the_best_score_persists_nothing() {
    let mut s = Scoreboard::new(1000);
    s.update(5000, GameState::Playing, true);
    let fx = s.update(0, GameState::Dead, true);
    assert_eq!(fx.persist_record, None);
    assert_eq!(s.record.value, 1000);
}

#[test]
fn reset_restarts_the_score_but_keeps_the_record() {
    let mut s = Scoreboard::new(7);
    s.update(3000, GameState::Playing, true);
    s.reset();
    assert_eq!(s.get_score(), 0);
    assert_eq!(s.record.value, 7);
}
