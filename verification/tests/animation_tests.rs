//! Frame-animation timing: boundary advance, accumulation, looping,
//! sub-stepping equivalence, and reset.

use dino_runner::animation::{BitmapAnimation, TableInfo};

fn table() -> TableInfo {
    TableInfo { frame_count: 8, frame_width: 160, frame_height: 94 }
}

fn two_frame_anim() -> BitmapAnimation {
    BitmapAnimation::new(table(), vec![1, 2], 500, 500)
}

#[test]
fn anim_starts_at_frame_zero() {
    let a = two_frame_anim();
    assert_eq!(a.current_frame, 0);
    assert_eq!(a.current_time, 0);
    assert_eq!(a.frames, vec![1, 2]);
}

#[test]
fn anim_accumulates_below_boundary() {
    let mut a = two_frame_anim();
    let drawn = a.update(200);
    assert_eq!(a.current_frame, 0);
    assert_eq!(a.current_time, 200);
    assert_eq!(drawn, 1);
}

#[test]
fn anim_advances_exactly_at_boundary() {
    let mut a = two_frame_anim();
    let drawn = a.update(500);
    assert_eq!(a.current_frame, 1);
    assert_eq!(a.current_time, 0);
    assert_eq!(drawn, 2);
}

#[test]
fn anim_discards_overshoot() {
    // A tick that jumps past the boundary advances one frame and
    // restarts the timer at zero, discarding the excess.
    let mut a = two_frame_anim();
    let drawn = a.update(1300);
    assert_eq!(a.current_frame, 1);
    assert_eq!(a.current_time, 0);
    assert_eq!(drawn, 2);
}

#[test]
fn anim_loops_modulo_sequence_length() {
    let mut a = two_frame_anim();
    a.update(500);
    a.update(500);
    assert_eq!(a.current_frame, 0);
    a.update(500);
    assert_eq!(a.current_frame, 1);
}

#[test]
fn anim_substepping_is_exact() {
    // Many small deltas summing to k frame durations land on the same
    // frame and timer as k boundary-sized deltas, as long as no step
    // overshoots a boundary.
    let mut coarse = two_frame_anim();
    for _ in 0..6 {
        coarse.update(500);
    }
    let mut fine = two_frame_anim();
    for _ in 0..12 {
        fine.update(250);
    }
    assert_eq!(coarse.current_frame, fine.current_frame);
    assert_eq!(coarse.current_time, fine.current_time);
    // 6 durations over a 2-frame loop: frame 6 mod 2 = 0, timer 0.
    assert_eq!(fine.current_frame, 0);
    assert_eq!(fine.current_time, 0);
}

#[test]
fn anim_reset_rewinds() {
    let mut a = two_frame_anim();
    a.update(500);
    a.update(123);
    a.reset();
    assert_eq!(a.current_frame, 0);
    assert_eq!(a.current_time, 0);
}
