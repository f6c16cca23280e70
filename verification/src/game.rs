//! The top-level game orchestrator: the {Ready, Playing, Dead} state
//! machine that gates every subsystem, the start/restart input edge,
//! the day/night inversion timer, and the fixed per-tick sequencing —
//! start/restart input, day/night timer, ground, background items,
//! player, obstacles, scoreboard. Only the orchestrator (on restart)
//! and the player's fatal collision ever write the game state.

use vstd::prelude::*;

use crate::args::DAY_NIGHT_CYCLE_SECS;
use crate::bg_items::{bg_items_step, BGItems};
use crate::collision::{mask_wf, PixelMask};
use crate::dino::{
    dino_reset_view, dino_step, initial_dino_asm, normal_collide_rect_spec, Dino, DinoView,
    DINO_RESTING_Y_UPX,
};
use crate::geom::RectView;
use crate::ground::{
    ground_step, Ground, GroundView, GROUND_TILE_WIDTH_UPX, INITIAL_GROUND_VELOCITY,
};
use crate::obstacle::{obstacles_step, ObstacleImages, Obstacles, ObstaclesView, ObstacleView};
use crate::scoreboard::{acc_step, score_of, Scoreboard};
use crate::GameState;

verus! {

/// The art the game is built over, loaded once by the host: the
/// player's opacity mask and the obstacle images' masks and metadata.
pub struct GameAssets {
    pub dino_mask: PixelMask,
    pub obstacle_images: ObstacleImages,
}

impl GameAssets {
    /// The player mask matches the player sprite's size and the
    /// obstacle art is well formed.
    pub open spec fn wf(self) -> bool {
        &&& mask_wf(self.dino_mask@)
        &&& self.dino_mask@.width == 80
        &&& self.dino_mask@.height == 47
        &&& self.obstacle_images@.wf()
    }
}

/// Everything the host hands the game for one tick: the polled input
/// edges, its millisecond clock, and the random draws a spawn may
/// consume.
#[derive(Clone, Copy, Debug)]
pub struct FrameInput {
    /// The confirm button was pushed this tick (edge).
    pub a_pushed: bool,
    /// The duck button is held (level).
    pub b_held: bool,
    /// The host clock, in milliseconds.
    pub now_ms: i64,
    /// Random draw for the kind of a spawned obstacle.
    pub rand_kind: u64,
    /// Random draws for a spawned background item's position.
    pub rand_bg_x: u64,
    pub rand_bg_y: u64,
}

/// Everything one tick hands back for the host to perform: audio
/// triggers, a display-inversion change, and a best score to persist.
#[derive(Clone, Copy, PartialEq, Eq, Debug)]
pub struct FrameEffects {
    /// A new session started this tick (all subsystems were reset).
    pub started: bool,
    /// Set the display inversion to this value (day/night flip).
    pub set_inverted: Option<bool>,
    pub jump_audio: bool,
    pub dead_audio: bool,
    pub achievement_audio: bool,
    /// A new best score to write to durable storage.
    pub persist_record: Option<i64>,
}

/// The whole game: every subsystem plus the orchestrator's own state.
pub struct DinoGame {
    pub dino: Dino,
    pub ground: Ground,
    pub obstacles: Obstacles,
    pub bg_items: BGItems,
    pub scoreboard: Scoreboard,
    /// The single source of truth gating every subsystem.
    pub state: GameState,
    /// Host-clock time of the last day/night flip, in milliseconds.
    pub last_invert_time_ms: i64,
    /// Whether the display is currently inverted (night).
    pub inverted: bool,
    /// Gates the achievement chime.
    pub audio_enabled: bool,
}

impl DinoGame {
    /// Every subsystem is well formed.
    pub open spec fn wf(self) -> bool {
        &&& self.dino@.wf()
        &&& self.ground@.wf()
        &&& self.obstacles@.wf()
        &&& self.bg_items.wf()
        &&& self.scoreboard.wf()
    }

    /// A fresh game in the `Ready` state over the given art, with the
    /// best score the host read from durable storage (zero when the
    /// record is missing or unreadable).
    pub fn new(assets: GameAssets, record_value: i64) -> (g: DinoGame)
        requires
            assets.wf(),
        ensures
            g.wf(),
            g.state == GameState::Ready,
            g.dino@ == (DinoView {
                machine: initial_dino_asm(),
                pos_y: DINO_RESTING_Y_UPX as int,
                vertical_velocity: 0,
                collide_rect: normal_collide_rect_spec(),
                mask: assets.dino_mask@,
            }),
            g.ground@ == (GroundView {
                slot0_x: 0,
                slot1_x: GROUND_TILE_WIDTH_UPX as int,
                velocity: INITIAL_GROUND_VELOCITY as int,
            }),
            g.obstacles@.items.len() == 0,
            g.obstacles@.images == assets.obstacle_images@,
            g.bg_items@.len() == 0,
            g.scoreboard.accumulated_time_ms == 0,
            g.scoreboard.record.value == record_value,
            g.last_invert_time_ms == 0,
            !g.inverted,
            g.audio_enabled,
    {
        DinoGame {
            dino: Dino::new(assets.dino_mask),
            ground: Ground::new(),
            obstacles: Obstacles::new(assets.obstacle_images),
            bg_items: BGItems::new(),
            scoreboard: Scoreboard::new(record_value),
            state: GameState::Ready,
            last_invert_time_ms: 0,
            inverted: false,
            audio_enabled: true,
        }
    }

    /// The current game state.
    pub fn get_game_state(&self) -> (s: GameState)
        ensures
            s == self.state,
    {
        self.state
    }

    /// The game is in its playing session.
    fn is_playing(&self) -> (r: bool)
        ensures
            r == (self.state == GameState::Playing),
    {
        matches!(self.state, GameState::Playing)
    }

    /// A confirm press would start or restart a session.
    fn is_ready_or_dead(&self) -> (r: bool)
        ensures
            r == (self.state == GameState::Ready || self.state == GameState::Dead),
    {
        matches!(self.state, GameState::Ready | GameState::Dead)
    }

    /// Start or restart a session: every subsystem returns to its
    /// documented initial state — ground segments at 0 and one tile
    /// width at the initial scroll velocity, the player at its resting
    /// position with its machine rewound to Idle, obstacle and cloud
    /// pools emptied (the next tick reseeds them), the score at zero
    /// with the best score kept — and play begins, with the day/night
    /// timer restarted at the host clock.
    pub fn reset_and_start_game(&mut self, now_ms: i64)
        requires
            old(self).wf(),
        ensures
            final(self).wf(),
            final(self).state == GameState::Playing,
            final(self).dino@ == dino_reset_view(old(self).dino@),
            final(self).ground@ == (GroundView {
                slot0_x: 0,
                slot1_x: GROUND_TILE_WIDTH_UPX as int,
                velocity: INITIAL_GROUND_VELOCITY as int,
            }),
            final(self).obstacles@.items.len() == 0,
            final(self).obstacles@.images == old(self).obstacles@.images,
            final(self).bg_items@.len() == 0,
            final(self).scoreboard.accumulated_time_ms == 0,
            final(self).scoreboard.record == old(self).scoreboard.record,
            final(self).last_invert_time_ms == now_ms,
            final(self).inverted == old(self).inverted,
            final(self).audio_enabled == old(self).audio_enabled,
    {
        self.ground.reset();
        self.dino.reset();
        self.bg_items.reset();
        self.obstacles.reset();
        self.scoreboard.reset();
        self.state = GameState::Playing;
        self.last_invert_time_ms = now_ms;
    }

    /// One tick of the whole game, in the fixed order that correctness
    /// needs: handle the start/restart edge, run the day/night timer,
    /// update the ground (producing this tick's scroll velocity), the
    /// background items, the player (whose collision test may flip the
    /// state to `Dead`), the obstacles, and the scoreboard (which
    /// observes the post-player state). Returns the side effects the
    /// host must perform.
    pub fn update(&mut self, delta: i64, input: FrameInput) -> (fx: FrameEffects)
        requires
            old(self).wf(),
            0 <= delta,
        ensures
            final(self).wf(),
            ({
                let started = (old(self).state == GameState::Ready || old(self).state
                    == GameState::Dead) && input.a_pushed;
                let dino0 = if started {
                    dino_reset_view(old(self).dino@)
                } else {
                    old(self).dino@
                };
                let ground0 = if started {
                    GroundView {
                        slot0_x: 0,
                        slot1_x: GROUND_TILE_WIDTH_UPX as int,
                        velocity: INITIAL_GROUND_VELOCITY as int,
                    }
                } else {
                    old(self).ground@
                };
                let obstacles0 = if started {
                    Seq::<ObstacleView>::empty()
                } else {
                    old(self).obstacles@.items
                };
                let bg0 = if started {
                    Seq::<RectView>::empty()
                } else {
                    old(self).bg_items@
                };
                let acc0 = if started {
                    0int
                } else {
                    old(self).scoreboard.accumulated_time_ms as int
                };
                let state0 = if started {
                    GameState::Playing
                } else {
                    old(self).state
                };
                let last0 = if started {
                    input.now_ms as int
                } else {
                    old(self).last_invert_time_ms as int
                };
                let toggle = state0 == GameState::Playing && input.now_ms - last0
                    > DAY_NIGHT_CYCLE_SECS * 1000;
                let inverted1 = if toggle {
                    !old(self).inverted
                } else {
                    old(self).inverted
                };
                let last1 = if toggle {
                    input.now_ms as int
                } else {
                    last0
                };
                let ground1 = if state0 == GameState::Playing {
                    ground_step(ground0, delta as int)
                } else {
                    ground0
                };
                let bg1 = bg_items_step(
                    bg0,
                    state0,
                    ground1.velocity,
                    input.rand_bg_x as int,
                    input.rand_bg_y as int,
                    delta as int,
                );
                let r = dino_step(
                    dino0,
                    state0,
                    input.a_pushed,
                    input.b_held,
                    obstacles0,
                    delta as int,
                );
                let state1 = r.game;
                let obs1 = obstacles_step(
                    ObstaclesView { images: old(self).obstacles@.images, items: obstacles0 },
                    state1,
                    ground1.velocity,
                    input.rand_kind as int,
                    delta as int,
                );
                let acc1 = acc_step(acc0, state1, delta as int);
                let score1 = score_of(acc1);
                let record0 = old(self).scoreboard.record.value as int;
                &&& final(self).state == state1
                &&& final(self).dino@ == r.dino
                &&& final(self).ground@ == ground1
                &&& final(self).bg_items@ == bg1
                &&& final(self).obstacles@.items == obs1.items
                &&& final(self).obstacles@.images == old(self).obstacles@.images
                &&& final(self).scoreboard.accumulated_time_ms == acc1
                &&& final(self).scoreboard.record.value == (if state1 == GameState::Dead && score1
                    > record0 {
                    score1
                } else {
                    record0
                })
                &&& final(self).last_invert_time_ms == last1
                &&& final(self).inverted == inverted1
                &&& final(self).audio_enabled == old(self).audio_enabled
                &&& fx.started == started
                &&& fx.set_inverted == (if toggle {
                    Option::Some(inverted1)
                } else {
                    Option::<bool>::None
                })
                &&& fx.jump_audio == r.effects.jump_audio
                &&& fx.dead_audio == r.effects.dead_audio
                &&& fx.achievement_audio == (state1 == GameState::Playing && old(
                    self,
                ).audio_enabled && score1 > 0 && score1 % 100 == 0)
                &&& (fx.persist_record is Some <==> (state1 == GameState::Dead && score1
                    > record0))
                &&& (fx.persist_record is Some ==> fx.persist_record->0 == score1)
            }),
            final(self).obstacles@.items.len() >= 1,
            final(self).dino@.pos_y <= DINO_RESTING_Y_UPX as int,
    {
        // Start or restart the session on a confirm edge.
        let started: bool = self.is_ready_or_dead() && input.a_pushed;
        if started {
            self.reset_and_start_game(input.now_ms);
        }
        // Day/night inversion timer, only while playing.
        let mut set_inverted: Option<bool> = Option::None;
        if self.is_playing() {
            let elapsed: i128 = input.now_ms as i128 - self.last_invert_time_ms as i128;
            if elapsed > (DAY_NIGHT_CYCLE_SECS * 1000) as i128 {
                self.inverted = !self.inverted;
                self.last_invert_time_ms = input.now_ms;
                set_inverted = Option::Some(self.inverted);
            }
        }
        // Fixed subsystem order: ground first (it produces the scroll
        // velocity), then background, player, obstacles, scoreboard.
        self.ground.update(delta, self.state);
        let velocity: i64 = self.ground.get_velocity();
        self.bg_items.update(delta, self.state, velocity, input.rand_bg_x, input.rand_bg_y);
        let dfx = self.dino.update(
            delta,
            &mut self.state,
            input.a_pushed,
            input.b_held,
            &self.obstacles,
        );
        self.obstacles.update(delta, self.state, velocity, input.rand_kind);
        let sfx = self.scoreboard.update(delta, self.state, self.audio_enabled);
        FrameEffects {
            started,
            set_inverted,
            jump_audio: dfx.jump_audio,
            dead_audio: dfx.dead_audio,
            achievement_audio: sfx.achievement_audio,
            persist_record: sfx.persist_record,
        }
    }
}

} // verus!
