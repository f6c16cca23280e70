//! The player character: a five-state animation state machine (Idle,
//! Run, Jump, Duck, Dead) with vertical physics (jump impulse, gravity,
//! a clamp at the resting height) and opaque-pixel collision against the
//! active obstacles. A fatal collision flips the shared game state to
//! `Dead`; ground segments are never collision candidates, so the
//! ground can never kill.

use vstd::prelude::*;

use crate::animation::{
    AnimView, AnimationState, AnimationStateMachine, AsmView, BitmapAnimation, StateTag, TableInfo,
};
use crate::args::{
    DISPLAY_HEIGHT_UPX, GRAVITY, JUMP_VELOCITY, POS_LIMIT, VEL_LIMIT,
};
use crate::collision::{check_masks_collide, mask_wf, masks_collide, MaskView, PixelMask};
use crate::geom::{
    accelerate, advanced_pos, advanced_vel, integrate, px_of, rect_in_domain, rects_overlap_spec,
    to_px, Rect, RectView,
};
use crate::ground::GROUND_COLLIDE_HEIGHT_UPX;
use crate::obstacle::{Obstacles, ObstacleView};
use crate::GameState;

verus! {

/// Left edge of the player's bounds, in micro-pixels (20 px): the
/// player never moves horizontally.
pub const DINO_BOUNDS_X_UPX: i64 = 20_000_000;

/// Width of the player sprite, in micro-pixels (80 px).
pub const DINO_W_UPX: i64 = 80_000_000;

/// Height of the player sprite, in micro-pixels (47 px).
pub const DINO_H_UPX: i64 = 47_000_000;

/// Half the sprite height: the offset from the center to the bounds'
/// top edge.
pub const DINO_HALF_H_UPX: i64 = 23_500_000;

/// The player center's resting y, in micro-pixels: standing on the
/// ground. The player's y never exceeds it (y grows downward).
pub const DINO_RESTING_Y_UPX: i64 = 170_500_000;

/// The player's animation states.
#[derive(Clone, Copy, PartialEq, Eq, PartialOrd, Ord, Debug, Structural)]
pub enum DinoState {
    Idle,
    Run,
    Jump,
    Duck,
    Dead,
}

/// Everything the player's transition function reads each tick: the
/// shared game state, the confirm press edge, the duck button level,
/// and whether the sprite stands on the ground.
#[derive(Clone, Copy, PartialEq, Eq, Structural, Debug)]
pub struct DinoInput {
    pub game: GameState,
    pub a_pushed: bool,
    pub b_held: bool,
    pub landed: bool,
}

/// The player's total transition function: Idle runs once the game
/// leaves Ready; Run jumps on a confirm edge or ducks while the duck
/// button is held; Duck stands back up when it is released; Jump lands
/// back into Run; every live state dies when the game state is Dead,
/// and Dead returns to Run when a restart sets it Playing.
pub open spec fn dino_transition(s: DinoState, input: DinoInput) -> Option<DinoState> {
    match s {
        DinoState::Idle => if input.game != GameState::Ready {
            Option::Some(DinoState::Run)
        } else {
            Option::None
        },
        DinoState::Run => if input.game == GameState::Dead {
            Option::Some(DinoState::Dead)
        } else if input.a_pushed {
            Option::Some(DinoState::Jump)
        } else if input.b_held {
            Option::Some(DinoState::Duck)
        } else {
            Option::None
        },
        DinoState::Duck => if input.game == GameState::Dead {
            Option::Some(DinoState::Dead)
        } else if !input.b_held {
            Option::Some(DinoState::Run)
        } else {
            Option::None
        },
        DinoState::Jump => if input.game == GameState::Dead {
            Option::Some(DinoState::Dead)
        } else if input.landed {
            Option::Some(DinoState::Run)
        } else {
            Option::None
        },
        DinoState::Dead => if input.game == GameState::Playing {
            Option::Some(DinoState::Run)
        } else {
            Option::None
        },
    }
}

impl StateTag for DinoState {
    open spec fn initial_spec() -> DinoState {
        DinoState::Idle
    }

    fn initial() -> (s: DinoState) {
        DinoState::Idle
    }

    fn state_eq(&self, other: &DinoState) -> (r: bool) {
        *self == *other
    }
}

impl AnimationState<DinoInput> for DinoState {
    open spec fn transition_spec(self, input: DinoInput, delta: int) -> Option<DinoState> {
        dino_transition(self, input)
    }

    fn transition(&self, input: &DinoInput, delta: i64) -> (r: Option<DinoState>) {
        match *self {
            DinoState::Idle => if !matches!(input.game, GameState::Ready) {
                Option::Some(DinoState::Run)
            } else {
                Option::None
            },
            DinoState::Run => if matches!(input.game, GameState::Dead) {
                Option::Some(DinoState::Dead)
            } else if input.a_pushed {
                Option::Some(DinoState::Jump)
            } else if input.b_held {
                Option::Some(DinoState::Duck)
            } else {
                Option::None
            },
            DinoState::Duck => if matches!(input.game, GameState::Dead) {
                Option::Some(DinoState::Dead)
            } else if !input.b_held {
                Option::Some(DinoState::Run)
            } else {
                Option::None
            },
            DinoState::Jump => if matches!(input.game, GameState::Dead) {
                Option::Some(DinoState::Dead)
            } else if input.landed {
                Option::Some(DinoState::Run)
            } else {
                Option::None
            },
            DinoState::Dead => if matches!(input.game, GameState::Playing) {
                Option::Some(DinoState::Run)
            } else {
                Option::None
            },
        }
    }
}

/// The standing/running/jumping collision rectangle, relative to the
/// sprite's bounds.
pub open spec fn normal_collide_rect_spec() -> RectView {
    RectView { x: 18_000_000, y: 0, w: 44_000_000, h: 47_000_000 }
}

/// The shorter, wider collision rectangle used while ducking.
pub open spec fn duck_collide_rect_spec() -> RectView {
    RectView { x: 10_500_000, y: 17_000_000, w: 59_000_000, h: 30_000_000 }
}

/// Runtime value of [`normal_collide_rect_spec`].
pub fn normal_collide_rect() -> (r: Rect)
    ensures
        r@ == normal_collide_rect_spec(),
{
    Rect { x: 18_000_000, y: 0, w: 44_000_000, h: 47_000_000 }
}

/// Runtime value of [`duck_collide_rect_spec`].
pub fn duck_collide_rect() -> (r: Rect)
    ensures
        r@ == duck_collide_rect_spec(),
{
    Rect { x: 10_500_000, y: 17_000_000, w: 59_000_000, h: 30_000_000 }
}

/// The ground-contact test the transition function uses: the gap below
/// the sprite's bounds is at most the collidable ground height. With
/// the resting clamp in force this holds exactly at the resting y.
pub open spec fn dino_landed(pos_y: int) -> bool {
    DISPLAY_HEIGHT_UPX - DINO_H_UPX - (pos_y - DINO_HALF_H_UPX) <= GROUND_COLLIDE_HEIGHT_UPX
}

/// The player's collision rectangle placed in world space for a center
/// y of `pos_y`.
pub open spec fn dino_world_collide(pos_y: int, cr: RectView) -> RectView {
    RectView {
        x: DINO_BOUNDS_X_UPX + cr.x,
        y: pos_y - DINO_HALF_H_UPX + cr.y,
        w: cr.w,
        h: cr.h,
    }
}

/// The player at center y `pos_y` collides with the obstacle `o`: the
/// broad phase overlaps their collision rectangles, then opaque pixels
/// of the two sprites must coincide in world space.
pub open spec fn dino_hits_obstacle(
    pos_y: int,
    cr: RectView,
    mask: MaskView,
    o: ObstacleView,
) -> bool {
    &&& rects_overlap_spec(dino_world_collide(pos_y, cr), o.bounds)
    &&& masks_collide(
        mask,
        px_of(DINO_BOUNDS_X_UPX as int),
        px_of(pos_y - DINO_HALF_H_UPX),
        o.mask,
        px_of(o.bounds.x),
        px_of(o.bounds.y),
    )
}

/// The player collides with some active obstacle. Ground segments are
/// not candidates: only obstacles can kill.
pub open spec fn dino_collides(
    pos_y: int,
    cr: RectView,
    mask: MaskView,
    obstacles: Seq<ObstacleView>,
) -> bool {
    exists|i: int|
        0 <= i < obstacles.len() && dino_hits_obstacle(pos_y, cr, mask, #[trigger] obstacles[i])
}

/// Pixel-accurate collision test of the player against every active
/// obstacle, narrowing the pixel scan to rectangle-overlap candidates.
fn collides_at(pos_y: i64, cr: &Rect, mask: &PixelMask, obstacles: &Obstacles) -> (r: bool)
    requires
        -POS_LIMIT <= pos_y <= POS_LIMIT,
        rect_in_domain(cr@),
        mask_wf(mask@),
        obstacles@.wf(),
    ensures
        r == dino_collides(pos_y as int, cr@, mask@, obstacles@.items),
{
    let n: usize = obstacles.obstacles.len();
    let mut i: usize = 0;
    while i < n
        invariant
            -POS_LIMIT <= pos_y <= POS_LIMIT,
            rect_in_domain(cr@),
            mask_wf(mask@),
            obstacles@.wf(),
            n == obstacles@.items.len(),
            i <= n,
            forall|j: int|
                0 <= j < i ==> !dino_hits_obstacle(
                    pos_y as int,
                    cr@,
                    mask@,
                    #[trigger] obstacles@.items[j],
                ),
        decreases n - i,
    {
        let o: &crate::obstacle::Obstacle = &obstacles.obstacles[i];
        proof {
            assert(o@ == obstacles@.items[i as int]);
            assert(o@.wf());
        }
        let dbx: i128 = DINO_BOUNDS_X_UPX as i128 + cr.x as i128;
        let dby: i128 = pos_y as i128 - DINO_HALF_H_UPX as i128 + cr.y as i128;
        let obx: i128 = o.bounds.x as i128;
        let oby: i128 = o.bounds.y as i128;
        let obw: i128 = o.bounds.w as i128;
        let obh: i128 = o.bounds.h as i128;
        let c1: bool = dbx < obx + obw;
        let c2: bool = obx < dbx + cr.w as i128;
        let c3: bool = dby < oby + obh;
        let c4: bool = oby < dby + cr.h as i128;
        let overlap: bool = c1 && c2 && c3 && c4;
        proof {
            assert(overlap == rects_overlap_spec(
                dino_world_collide(pos_y as int, cr@),
                o@.bounds,
            ));
        }
        if overlap {
            let dpx: i64 = to_px(DINO_BOUNDS_X_UPX);
            let dpy: i64 = to_px(pos_y - DINO_HALF_H_UPX);
            let opx: i64 = to_px(o.bounds.x);
            let opy: i64 = to_px(o.bounds.y);
            if check_masks_collide(mask, dpx, dpy, &o.mask, opx, opy) {
                proof {
                    assert(dino_hits_obstacle(pos_y as int, cr@, mask@, obstacles@.items[i as int]));
                }
                return true;
            }
        }
        i = i + 1;
    }
    false
}

/// The player: its animation state machine, vertical state, current
/// collision rectangle, and opacity mask.
pub struct Dino {
    pub animations: AnimationStateMachine<DinoState>,
    /// The sprite center's y, in micro-pixels.
    pub pos_y: i64,
    /// Vertical velocity, in milli-pixels per second (negative is up).
    pub vertical_velocity: i64,
    /// The collision rectangle for the current state, relative to the
    /// sprite's bounds.
    pub collide_rect: Rect,
    /// The sprite's opacity mask at sprite scale (80 by 47 px).
    pub mask: PixelMask,
}

/// Mathematical view of the [`Dino`].
pub struct DinoView {
    pub machine: AsmView<DinoState>,
    pub pos_y: int,
    pub vertical_velocity: int,
    pub collide_rect: RectView,
    pub mask: MaskView,
}

impl View for Dino {
    type V = DinoView;

    open spec fn view(&self) -> DinoView {
        DinoView {
            machine: self.animations@,
            pos_y: self.pos_y as int,
            vertical_velocity: self.vertical_velocity as int,
            collide_rect: self.collide_rect@,
            mask: self.mask@,
        }
    }
}

impl DinoView {
    /// The machine is well formed with every state registered, the
    /// center never sinks below the resting y, the velocity never
    /// exceeds the jump impulse upward, the mask matches the sprite
    /// size, and the collision rectangle is one of the two shapes.
    pub open spec fn wf(self) -> bool {
        &&& self.machine.wf()
        &&& forall|s: DinoState| #[trigger] self.machine.has_state(s)
        &&& -POS_LIMIT <= self.pos_y <= DINO_RESTING_Y_UPX
        &&& JUMP_VELOCITY <= self.vertical_velocity <= VEL_LIMIT
        &&& mask_wf(self.mask)
        &&& self.mask.width == 80
        &&& self.mask.height == 47
        &&& (self.collide_rect == normal_collide_rect_spec() || self.collide_rect
            == duck_collide_rect_spec())
    }
}

/// The player after a restart reset: back at the resting position with
/// the animation machine rewound to Idle; the vertical velocity and
/// collision shape are left for the next tick's Dead-to-Run edge.
pub open spec fn dino_reset_view(d: DinoView) -> DinoView {
    DinoView {
        pos_y: DINO_RESTING_Y_UPX as int,
        machine: crate::animation::asm_reset_view::<DinoState>(d.machine),
        ..d
    }
}

/// Everything one player tick hands back to the host: which audio
/// clips to fire.
#[derive(Clone, Copy, PartialEq, Eq, Structural, Debug)]
pub struct DinoEffects {
    pub jump_audio: bool,
    pub dead_audio: bool,
}

/// The outcome of one player tick.
pub struct DinoStepResult {
    pub dino: DinoView,
    pub game: GameState,
    pub effects: DinoEffects,
}

/// The player's shared frame table.
pub open spec fn dino_table() -> TableInfo {
    TableInfo { frame_count: 8, frame_width: 160, frame_height: 94 }
}

/// A fresh player animation over the shared table at half scale.
pub open spec fn dino_anim(frames: Seq<usize>, frame_time: int) -> AnimView {
    AnimView {
        table: dino_table(),
        frames,
        frame_time,
        scale_permille: 500,
        current_frame: 0,
        current_time: 0,
    }
}

/// The player's freshly built animation state machine: one animation
/// per state, current state Idle.
pub open spec fn initial_dino_asm() -> AsmView<DinoState> {
    AsmView {
        tables: seq![("dino"@, dino_table())],
        states: seq![
            DinoState::Idle,
            DinoState::Jump,
            DinoState::Run,
            DinoState::Duck,
            DinoState::Dead,
        ],
        anims: seq![
            dino_anim(seq![1usize, 2usize], 500),
            dino_anim(seq![1usize], 500),
            dino_anim(seq![3usize, 4usize], 200),
            dino_anim(seq![5usize, 6usize], 200),
            dino_anim(seq![7usize], 1000),
        ],
        current_state: DinoState::Idle,
    }
}

/// One player tick as a mathematical function, in the order the tick
/// runs: the animation machine transitions and plays; outside `Playing`
/// nothing else happens; otherwise the state edges fire the jump
/// impulse or the restart repositioning, gravity accelerates the
/// velocity, the position integrates and clamps at the resting y, and
/// the collision test at the new position may flip the game to `Dead`
/// (skipping the rest of the tick); a tick that did not change the y
/// zeroes the velocity so no energy accumulates while resting.
pub open spec fn dino_step(
    d: DinoView,
    game: GameState,
    a_pushed: bool,
    b_held: bool,
    obstacles: Seq<ObstacleView>,
    delta: int,
) -> DinoStepResult {
    let input = DinoInput { game, a_pushed, b_held, landed: dino_landed(d.pos_y) };
    let machine1 = d.machine.stepped(input, delta);
    let old_state = d.machine.current_state;
    let new_state = machine1.current_state;
    if game != GameState::Playing {
        DinoStepResult {
            dino: DinoView { machine: machine1, ..d },
            game,
            effects: DinoEffects { jump_audio: false, dead_audio: false },
        }
    } else {
        let jump_audio = (old_state != DinoState::Jump && new_state == DinoState::Jump)
            || old_state == DinoState::Idle;
        let cr = if new_state == DinoState::Duck {
            duck_collide_rect_spec()
        } else {
            normal_collide_rect_spec()
        };
        let restart = old_state == DinoState::Dead && new_state == DinoState::Run;
        let impulse = (old_state == DinoState::Idle && new_state == DinoState::Run) || (old_state
            == DinoState::Run && new_state == DinoState::Jump);
        let y0 = if restart {
            DINO_RESTING_Y_UPX as int
        } else {
            d.pos_y
        };
        let v0 = if impulse {
            JUMP_VELOCITY as int
        } else if restart {
            0int
        } else {
            d.vertical_velocity
        };
        let v1 = advanced_vel(v0, GRAVITY as int, delta);
        let yi = advanced_pos(y0, v1, delta);
        let y1 = if yi > DINO_RESTING_Y_UPX {
            DINO_RESTING_Y_UPX as int
        } else {
            yi
        };
        if dino_collides(y1, cr, d.mask, obstacles) {
            DinoStepResult {
                dino: DinoView {
                    machine: machine1,
                    pos_y: y1,
                    vertical_velocity: v1,
                    collide_rect: cr,
                    ..d
                },
                game: GameState::Dead,
                effects: DinoEffects { jump_audio, dead_audio: true },
            }
        } else {
            let v2 = if y1 == y0 {
                0int
            } else {
                v1
            };
            DinoStepResult {
                dino: DinoView {
                    machine: machine1,
                    pos_y: y1,
                    vertical_velocity: v2,
                    collide_rect: cr,
                    ..d
                },
                game,
                effects: DinoEffects { jump_audio, dead_audio: false },
            }
        }
    }
}

impl Dino {
    /// Build the player's animation state machine: the shared frame
    /// table and one animation per state.
    fn create_animation_state_machine() -> (machine: AnimationStateMachine<DinoState>)
        ensures
            machine@ == initial_dino_asm(),
            machine@.wf(),
            forall|s: DinoState| #[trigger] machine@.has_state(s),
    {
        let mut machine: AnimationStateMachine<DinoState> = AnimationStateMachine::new();
        let name: String = "dino".to_string();
        proof {
            broadcast use vstd::string::to_string_from_display_ensures_for_str;

            assert(name@ == "dino"@);
        }
        let table: TableInfo = machine.add_bitmap_table(name, 8, 160, 94);
        proof {
            assert(machine@.tables =~= seq![("dino"@, dino_table())]);
            assert(!machine@.has_state(DinoState::Idle));
        }
        machine.add_state(DinoState::Idle, Self::make_anim(table, 1, 2, true, 500));
        proof {
            assert(machine@.states =~= seq![DinoState::Idle]);
            lemma_no_state(machine@, DinoState::Jump);
        }
        machine.add_state(DinoState::Jump, Self::make_anim(table, 1, 0, false, 500));
        proof {
            assert(machine@.states =~= seq![DinoState::Idle, DinoState::Jump]);
            lemma_no_state(machine@, DinoState::Run);
        }
        machine.add_state(DinoState::Run, Self::make_anim(table, 3, 4, true, 200));
        proof {
            assert(machine@.states =~= seq![DinoState::Idle, DinoState::Jump, DinoState::Run]);
            lemma_no_state(machine@, DinoState::Duck);
        }
        machine.add_state(DinoState::Duck, Self::make_anim(table, 5, 6, true, 200));
        proof {
            assert(machine@.states =~= seq![
                DinoState::Idle,
                DinoState::Jump,
                DinoState::Run,
                DinoState::Duck,
            ]);
            lemma_no_state(machine@, DinoState::Dead);
        }
        machine.add_state(DinoState::Dead, Self::make_anim(table, 7, 0, false, 1000));
        proof {
            assert(machine@.states =~= initial_dino_asm().states);
            assert(machine@.anims =~= initial_dino_asm().anims);
            assert(machine@ == initial_dino_asm());
            assert forall|s: DinoState| #[trigger] machine@.has_state(s) by {
                lemma_initial_has_all(machine@, s);
            }
        }
        machine
    }

    /// One player animation over the shared table: one frame or a
    /// two-frame loop.
    fn make_anim(table: TableInfo, f0: usize, f1: usize, two: bool, frame_time: i64) -> (a:
        BitmapAnimation)
        requires
            f0 < table.frame_count,
            two ==> f1 < table.frame_count,
            0 <= frame_time,
        ensures
            two ==> a@ == (AnimView {
                table,
                frames: seq![f0, f1],
                frame_time: frame_time as int,
                scale_permille: 500,
                current_frame: 0,
                current_time: 0,
            }),
            !two ==> a@ == (AnimView {
                table,
                frames: seq![f0],
                frame_time: frame_time as int,
                scale_permille: 500,
                current_frame: 0,
                current_time: 0,
            }),
            a@.wf(),
    {
        let mut frames: Vec<usize> = Vec::new();
        frames.push(f0);
        if two {
            frames.push(f1);
            proof {
                assert(frames@ =~= seq![f0, f1]);
            }
        } else {
            proof {
                assert(frames@ =~= seq![f0]);
            }
        }
        BitmapAnimation::new(table, frames, frame_time, 500)
    }

    /// A fresh player: machine at Idle, resting on the ground with no
    /// vertical velocity, standing collision shape, and the given
    /// opacity mask (rendered by the host at sprite scale).
    pub fn new(mask: PixelMask) -> (d: Dino)
        requires
            mask_wf(mask@),
            mask@.width == 80,
            mask@.height == 47,
        ensures
            d@ == (DinoView {
                machine: initial_dino_asm(),
                pos_y: DINO_RESTING_Y_UPX as int,
                vertical_velocity: 0,
                collide_rect: normal_collide_rect_spec(),
                mask: mask@,
            }),
            d@.wf(),
    {
        Dino {
            animations: Self::create_animation_state_machine(),
            pos_y: DINO_RESTING_Y_UPX,
            vertical_velocity: 0,
            collide_rect: normal_collide_rect(),
            mask,
        }
    }

    /// Reposition the sprite at its resting position and rewind the
    /// animation machine to Idle (used on game restart).
    pub fn reset(&mut self)
        requires
            old(self)@.wf(),
        ensures
            final(self)@.wf(),
            final(self)@ == dino_reset_view(old(self)@),
    {
        self.pos_y = DINO_RESTING_Y_UPX;
        self.animations.reset();
        proof {
            assert forall|s: DinoState| #[trigger] self@.machine.has_state(s) by {
                assert(old(self)@.machine.has_state(s));
                crate::animation::lemma_same_states_has(old(self)@.machine, self@.machine, s);
            }
        }
    }

    /// One player tick: transition and play the animation, then — while
    /// playing — fire impulses on state edges, apply gravity, integrate
    /// and clamp the position, test collision at the new position
    /// (flipping the shared game state to `Dead` on a hit), and zero
    /// the velocity after a tick that left the y unchanged.
    pub fn update(
        &mut self,
        delta: i64,
        game: &mut GameState,
        a_pushed: bool,
        b_held: bool,
        obstacles: &Obstacles,
    ) -> (fx: DinoEffects)
        requires
            old(self)@.wf(),
            0 <= delta,
            obstacles@.wf(),
        ensures
            ({
                let r = dino_step(
                    old(self)@,
                    *old(game),
                    a_pushed,
                    b_held,
                    obstacles@.items,
                    delta as int,
                );
                &&& final(self)@ == r.dino
                &&& *final(game) == r.game
                &&& fx == r.effects
            }),
            final(self)@.wf(),
    {
        let ghost prior: DinoView = self@;
        // The transition input, from the state before this tick.
        let bounds_y: i64 = self.pos_y - DINO_HALF_H_UPX;
        let landed: bool = DISPLAY_HEIGHT_UPX - DINO_H_UPX - bounds_y <= GROUND_COLLIDE_HEIGHT_UPX;
        let input = DinoInput { game: *game, a_pushed, b_held, landed };
        let old_state: DinoState = self.animations.get_current_state();
        proof {
            assert(prior.machine.has_state(prior.machine.next_state(input, delta as int)));
        }
        let _frame: usize = self.animations.update(delta, &input);
        let new_state: DinoState = self.animations.get_current_state();
        proof {
            assert forall|s: DinoState| #[trigger] self@.machine.has_state(s) by {
                assert(prior.machine.has_state(s));
                crate::animation::lemma_same_states_has(prior.machine, self@.machine, s);
            }
        }
        if !matches!(*game, GameState::Playing) {
            return DinoEffects { jump_audio: false, dead_audio: false };
        }
        // Jump feedback fires on the Run->Jump edge and on the initial
        // hop out of Idle.
        let jump_audio: bool = (old_state != DinoState::Jump && new_state == DinoState::Jump)
            || old_state == DinoState::Idle;
        // The collision shape follows the (possibly new) state.
        self.collide_rect = if new_state == DinoState::Duck {
            duck_collide_rect()
        } else {
            normal_collide_rect()
        };
        // State edges: jump impulse, or restart repositioning.
        if (old_state == DinoState::Idle && new_state == DinoState::Run) || (old_state
            == DinoState::Run && new_state == DinoState::Jump) {
            self.vertical_velocity = JUMP_VELOCITY;
        } else if old_state == DinoState::Dead && new_state == DinoState::Run {
            self.pos_y = DINO_RESTING_Y_UPX;
            self.vertical_velocity = 0;
        }
        // Gravity, then position integration clamped at the resting y.
        self.vertical_velocity = accelerate(self.vertical_velocity, GRAVITY, delta);
        let old_y: i64 = self.pos_y;
        let yi: i64 = integrate(self.pos_y, self.vertical_velocity, delta);
        let y1: i64 = if yi > DINO_RESTING_Y_UPX {
            DINO_RESTING_Y_UPX
        } else {
            yi
        };
        self.pos_y = y1;
        // Collision at the new position: anything opaque that is not
        // the ground kills.
        let hit: bool = collides_at(self.pos_y, &self.collide_rect, &self.mask, obstacles);
        if hit {
            *game = GameState::Dead;
            proof {
                assert forall|s: DinoState| #[trigger] self@.machine.has_state(s) by {
                    assert(prior.machine.has_state(s));
                    crate::animation::lemma_same_states_has(prior.machine, self@.machine, s);
                }
            }
            return DinoEffects { jump_audio, dead_audio: true };
        }
        // Resting: do not accumulate velocity while the y holds still.
        if y1 == old_y {
            self.vertical_velocity = 0;
        }
        proof {
            assert forall|s: DinoState| #[trigger] self@.machine.has_state(s) by {
                assert(prior.machine.has_state(s));
                crate::animation::lemma_same_states_has(prior.machine, self@.machine, s);
            }
        }
        DinoEffects { jump_audio, dead_audio: false }
    }
}

/// A state absent from the listed keys is not registered.
proof fn lemma_no_state(v: AsmView<DinoState>, s: DinoState)
    requires
        forall|i: int| 0 <= i < v.states.len() ==> v.states[i] != s,
    ensures
        !v.has_state(s),
{
    if v.has_state(s) {
        let w = choose|i: int| 0 <= i < v.states.len() && v.states[i] == s;
        assert(v.states[w] != s);
    }
}

/// Every player state is registered in the initial machine.
proof fn lemma_initial_has_all(v: AsmView<DinoState>, s: DinoState)
    requires
        v.states == initial_dino_asm().states,
    ensures
        v.has_state(s),
{
    match s {
        DinoState::Idle => {
            assert(v.states[0] == s);
        },
        DinoState::Jump => {
            assert(v.states[1] == s);
        },
        DinoState::Run => {
            assert(v.states[2] == s);
        },
        DinoState::Duck => {
            assert(v.states[3] == s);
        },
        DinoState::Dead => {
            assert(v.states[4] == s);
        },
    }
}

/// Player clamp: whatever the inputs, one tick never takes the player's
/// center below the resting y (the player cannot sink through the
/// ground), and a well-formed player keeps that bound as an invariant.
pub proof fn lemma_player_clamp(
    d: DinoView,
    game: GameState,
    a_pushed: bool,
    b_held: bool,
    obstacles: Seq<ObstacleView>,
    delta: int,
)
    requires
        d.wf(),
        0 <= delta,
    ensures
        dino_step(d, game, a_pushed, b_held, obstacles, delta).dino.pos_y
            <= DINO_RESTING_Y_UPX as int,
{
}

/// Collision gating: while playing, the game flips to `Dead` exactly
/// when some obstacle's opaque pixels meet the player's at the tick's
/// new position — the ground is not among the candidates, so rect
/// overlap with the ground never kills — and the death feedback fires
/// on that tick alone. Outside `Playing` the tick never changes the
/// game state and fires nothing, so a death cannot re-trigger while
/// already `Dead`.
pub proof fn lemma_collision_gating(
    d: DinoView,
    game: GameState,
    a_pushed: bool,
    b_held: bool,
    obstacles: Seq<ObstacleView>,
    delta: int,
)
    requires
        d.wf(),
        0 <= delta,
    ensures
        ({
            let r = dino_step(d, game, a_pushed, b_held, obstacles, delta);
            &&& game == GameState::Playing ==> ((r.game == GameState::Dead) == dino_collides(
                r.dino.pos_y,
                r.dino.collide_rect,
                d.mask,
                obstacles,
            ) && r.effects.dead_audio == (r.game == GameState::Dead))
            &&& game != GameState::Playing ==> (r.game == game && r.effects.dead_audio == false)
        }),
{
}

} // verus!
