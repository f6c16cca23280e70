//! UI chrome state: the blinking start prompt shown while `Ready`, and
//! the game-over panel with its blinking restart prompt shown while
//! `Dead`. The library tracks placement, blink timing and visibility;
//! measuring, rendering and compositing the text and icons is the
//! host's job.

use vstd::prelude::*;

use crate::scoreboard::TIME_LIMIT_MS;
use crate::GameState;

verus! {

/// Center x of the display, in micro-pixels (half the display width).
pub const UI_CENTER_X_UPX: i64 = 200_000_000;

/// Center y of the display, in micro-pixels (half the display height).
pub const UI_CENTER_Y_UPX: i64 = 120_000_000;

/// A message that blinks at one-second intervals while visible.
pub struct MessageBox {
    /// Center of the message, in micro-pixels.
    pub center_x: i64,
    pub center_y: i64,
    /// Time this message has been blinking, in milliseconds.
    pub elapsed_ms: i64,
    /// Whether the host should draw the message this tick.
    pub shown: bool,
}

impl MessageBox {
    /// The blink clock is a saturated non-negative duration.
    pub open spec fn wf(self) -> bool {
        0 <= self.elapsed_ms <= TIME_LIMIT_MS
    }

    /// A message centered at the given point, initially shown.
    pub fn new(center_x: i64, center_y: i64) -> (m: MessageBox)
        ensures
            m.center_x == center_x,
            m.center_y == center_y,
            m.elapsed_ms == 0,
            m.shown,
            m.wf(),
    {
        MessageBox { center_x, center_y, elapsed_ms: 0, shown: true }
    }

    /// One tick: hidden messages stay hidden without advancing their
    /// blink clock; a visible message advances it and is drawn on the
    /// even seconds.
    pub fn update(&mut self, delta: i64, visible: bool)
        requires
            old(self).wf(),
            0 <= delta,
        ensures
            final(self).wf(),
            final(self).center_x == old(self).center_x,
            final(self).center_y == old(self).center_y,
            !visible ==> final(self).elapsed_ms == old(self).elapsed_ms && !final(self).shown,
            visible ==> {
                &&& final(self).elapsed_ms == if old(self).elapsed_ms + delta > TIME_LIMIT_MS {
                    TIME_LIMIT_MS as int
                } else {
                    old(self).elapsed_ms + delta
                }
                &&& final(self).shown == ((final(self).elapsed_ms / 1000) % 2 == 0)
            },
    {
        if !visible {
            self.shown = false;
            return;
        }
        let e2: i128 = self.elapsed_ms as i128 + delta as i128;
        self.elapsed_ms = if e2 > TIME_LIMIT_MS as i128 {
            TIME_LIMIT_MS
        } else {
            e2 as i64
        };
        proof {
            vstd::arithmetic::div_mod::lemma_div_is_ordered(0, self.elapsed_ms as int, 1000);
        }
        let secs: u64 = (self.elapsed_ms as u64) / 1000;
        self.shown = secs % 2 == 0;
    }
}

/// The game-over panel: the banner, the restart icon, and the blinking
/// restart prompt.
pub struct RestartPanel {
    pub game_over_visible: bool,
    pub restart_visible: bool,
    pub message: MessageBox,
}

impl RestartPanel {
    pub open spec fn wf(self) -> bool {
        self.message.wf()
    }

    /// A fresh panel: banner and icon placed at the display center,
    /// prompt slightly below it.
    pub fn new() -> (p: RestartPanel)
        ensures
            p.message.center_x == UI_CENTER_X_UPX,
            p.message.center_y == UI_CENTER_Y_UPX + 18_000_000,
            p.message.elapsed_ms == 0,
            p.wf(),
    {
        RestartPanel {
            game_over_visible: true,
            restart_visible: true,
            message: MessageBox::new(UI_CENTER_X_UPX, UI_CENTER_Y_UPX + 18_000_000),
        }
    }

    /// One tick: the banner and icon follow `visible` directly, the
    /// prompt blinks while visible.
    pub fn update(&mut self, delta: i64, visible: bool)
        requires
            old(self).wf(),
            0 <= delta,
        ensures
            final(self).wf(),
            final(self).game_over_visible == visible,
            final(self).restart_visible == visible,
            !visible ==> final(self).message.elapsed_ms == old(self).message.elapsed_ms && !final(
                self).message.shown,
            visible ==> {
                &&& final(self).message.elapsed_ms == if old(self).message.elapsed_ms + delta
                    > TIME_LIMIT_MS {
                    TIME_LIMIT_MS as int
                } else {
                    old(self).message.elapsed_ms + delta
                }
                &&& final(self).message.shown == ((final(self).message.elapsed_ms / 1000) % 2
                    == 0)
            },
    {
        self.game_over_visible = visible;
        self.restart_visible = visible;
        self.message.update(delta, visible);
    }
}

/// The whole UI layer: the start prompt and the game-over panel.
pub struct UILayer {
    pub start_message: MessageBox,
    pub restart_panel: RestartPanel,
}

impl UILayer {
    pub open spec fn wf(self) -> bool {
        &&& self.start_message.wf()
        &&& self.restart_panel.wf()
    }

    /// A fresh UI layer: start prompt at the display center.
    pub fn new() -> (u: UILayer)
        ensures
            u.start_message.center_x == UI_CENTER_X_UPX,
            u.start_message.center_y == UI_CENTER_Y_UPX,
            u.wf(),
    {
        UILayer { start_message: MessageBox::new(UI_CENTER_X_UPX, UI_CENTER_Y_UPX), restart_panel: RestartPanel::new() }
    }

    /// One tick: the start prompt shows while `Ready`, the game-over
    /// panel while `Dead`.
    pub fn update(&mut self, delta: i64, state: GameState)
        requires
            old(self).wf(),
            0 <= delta,
        ensures
            final(self).wf(),
            !(state == GameState::Ready) ==> !final(self).start_message.shown,
            !(state == GameState::Dead) ==> !final(self).restart_panel.game_over_visible && !final(
                self).restart_panel.message.shown,
            state == GameState::Dead ==> final(self).restart_panel.game_over_visible,
    {
        let ready: bool = matches!(state, GameState::Ready);
        let dead: bool = matches!(state, GameState::Dead);
        self.start_message.update(delta, ready);
        self.restart_panel.update(delta, dead);
    }
}

} // verus!
