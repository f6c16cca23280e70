//! The scoreboard: elapsed playing time accumulates into a score (ten
//! points per second), an achievement chime fires on every hundredth
//! score while playing, and on death the best score is raised and
//! handed back for the host to persist. Rendering the score line and
//! writing the record file are the host's jobs.

use vstd::prelude::*;

use crate::GameState;

verus! {

/// The accumulated playing time saturates here (far beyond any
/// playable session), keeping the arithmetic in i64.
pub const TIME_LIMIT_MS: i64 = 1_000_000_000_000_000;

/// The best score, loaded from durable storage at startup (a missing
/// or unreadable record reads as zero).
pub struct MaxRecord {
    pub value: i64,
}

impl MaxRecord {
    /// Wrap the stored best score the host read.
    pub fn new(value: i64) -> (r: MaxRecord)
        ensures
            r.value == value,
    {
        MaxRecord { value }
    }

    /// The best score so far.
    pub fn get(&self) -> (v: i64)
        ensures
            v == self.value,
    {
        self.value
    }

    /// Raise the best score if `score` beats it; returns the value the
    /// host must persist, exactly when it changed.
    pub fn update(&mut self, score: i64) -> (persist: Option<i64>)
        ensures
            final(self).value == if score > old(self).value {
                score as int
            } else {
                old(self).value as int
            },
            persist is Some <==> score > old(self).value,
            persist is Some ==> persist->0 == score,
    {
        if score > self.value {
            self.value = score;
            Option::Some(score)
        } else {
            Option::None
        }
    }
}

/// The score for an accumulated playing time in milliseconds: ten
/// points per second.
pub open spec fn score_of(acc_ms: int) -> int {
    acc_ms / 100
}

/// The accumulated time after one tick: it grows only while playing,
/// saturating at [`TIME_LIMIT_MS`].
pub open spec fn acc_step(acc_ms: int, state: GameState, delta: int) -> int {
    if state == GameState::Playing {
        if acc_ms + delta > TIME_LIMIT_MS {
            TIME_LIMIT_MS as int
        } else {
            acc_ms + delta
        }
    } else {
        acc_ms
    }
}

/// What one scoreboard tick hands back to the host.
#[derive(Clone, Copy, PartialEq, Eq, Debug)]
pub struct ScoreboardEffects {
    /// Fire the achievement chime.
    pub achievement_audio: bool,
    /// A new best score to write to durable storage.
    pub persist_record: Option<i64>,
}

/// The score accumulator and the best-score record.
pub struct Scoreboard {
    /// Elapsed playing time, in milliseconds.
    pub accumulated_time_ms: i64,
    pub record: MaxRecord,
}

impl Scoreboard {
    /// The accumulated time is a saturated non-negative duration.
    pub open spec fn wf(self) -> bool {
        0 <= self.accumulated_time_ms <= TIME_LIMIT_MS
    }

    /// A fresh scoreboard over the stored best score.
    pub fn new(record_value: i64) -> (r: Scoreboard)
        ensures
            r.accumulated_time_ms == 0,
            r.record.value == record_value,
            r.wf(),
    {
        Scoreboard { accumulated_time_ms: 0, record: MaxRecord::new(record_value) }
    }

    /// Restart the score at zero; the best score survives restarts.
    pub fn reset(&mut self)
        ensures
            final(self).accumulated_time_ms == 0,
            final(self).record == old(self).record,
            final(self).wf(),
    {
        self.accumulated_time_ms = 0;
    }

    /// The current score.
    pub fn get_score(&self) -> (s: i64)
        requires
            self.wf(),
        ensures
            s == score_of(self.accumulated_time_ms as int),
            0 <= s,
    {
        proof {
            vstd::arithmetic::div_mod::lemma_div_is_ordered(
                0,
                self.accumulated_time_ms as int,
                100,
            );
        }
        ((self.accumulated_time_ms as u64) / 100) as i64
    }

    /// One tick: while playing the score accumulates and every
    /// hundredth score fires the achievement chime (when audio is
    /// enabled); on a death tick the best score is raised and handed
    /// back for persisting. The score and the best score never
    /// decrease.
    pub fn update(&mut self, delta: i64, state: GameState, audio_enabled: bool) -> (fx:
        ScoreboardEffects)
        requires
            old(self).wf(),
            0 <= delta,
        ensures
            final(self).wf(),
            final(self).accumulated_time_ms == acc_step(
                old(self).accumulated_time_ms as int,
                state,
                delta as int,
            ),
            ({
                let score = score_of(final(self).accumulated_time_ms as int);
                &&& fx.achievement_audio == (state == GameState::Playing && audio_enabled && score
                    > 0 && score % 100 == 0)
                &&& final(self).record.value == if state == GameState::Dead && score > old(
                    self,
                ).record.value {
                    score
                } else {
                    old(self).record.value as int
                }
                &&& (fx.persist_record is Some <==> (state == GameState::Dead && score > old(
                    self,
                ).record.value))
                &&& (fx.persist_record is Some ==> fx.persist_record->0 == score)
            }),
            final(self).accumulated_time_ms >= old(self).accumulated_time_ms,
            final(self).record.value >= old(self).record.value,
    {
        let mut achievement: bool = false;
        let mut persist: Option<i64> = Option::None;
        if matches!(state, GameState::Playing) {
            let a2: i128 = self.accumulated_time_ms as i128 + delta as i128;
            self.accumulated_time_ms = if a2 > TIME_LIMIT_MS as i128 {
                TIME_LIMIT_MS
            } else {
                a2 as i64
            };
            let score: i64 = self.get_score();
            if audio_enabled && score > 0 && (score as u64) % 100 == 0 {
                achievement = true;
            }
        }
        if matches!(state, GameState::Dead) {
            let score: i64 = self.get_score();
            persist = self.record.update(score);
        }
        ScoreboardEffects { achievement_audio: achievement, persist_record: persist }
    }
}

} // verus!
