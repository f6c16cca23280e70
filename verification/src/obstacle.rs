//! Obstacles: procedurally chosen cacti and birds that enter at the
//! right edge of the world, scroll left at the shared ground velocity,
//! are culled the moment their right edge passes the world origin, and
//! are respawned so the pool never stays empty — the single-obstacle
//! policy: a new one is spawned exactly when none remain.

use vstd::prelude::*;

use crate::animation::{AnimView, BitmapAnimation, TableInfo};
use crate::args::{DISPLAY_HEIGHT_UPX, DISPLAY_WIDTH_UPX, PX, VEL_LIMIT};
use crate::collision::{mask_wf, MaskView, PixelMask};
use crate::geom::{advanced_pos, integrate, rect_in_domain, Rect, RectView};
use crate::ground::GROUND_COLLIDE_HEIGHT_UPX;
use crate::GameState;

verus! {

/// World y of a grounded obstacle's bottom edge: the top of the
/// collidable ground strip.
pub const OBSTACLE_GROUND_UPX: i64 = DISPLAY_HEIGHT_UPX - GROUND_COLLIDE_HEIGHT_UPX;

/// World y of a high bird, in micro-pixels (88 + 34 px).
pub const BIRD_Y_UPX: i64 = 122_000_000;

/// World y of a low bird, in micro-pixels (88 + 60 px).
pub const LOW_BIRD_Y_UPX: i64 = 148_000_000;

/// The enumerable set of obstacle kinds.
#[derive(Clone, Copy, PartialEq, Eq, Structural, Debug, Hash)]
pub enum ObstacleKind {
    Bird,
    LowBird,
    CactusSmall1,
    CactusSmall2,
    CactusSmall3,
    CactusBig1,
    CactusBig2,
    CactusBig3,
}

/// The kind picked for a raw random number: a uniform draw maps to a
/// uniform pick among the eight kinds.
pub open spec fn kind_of_rand(r: int) -> ObstacleKind {
    let i = r % 8;
    if i == 0 {
        ObstacleKind::Bird
    } else if i == 1 {
        ObstacleKind::LowBird
    } else if i == 2 {
        ObstacleKind::CactusSmall1
    } else if i == 3 {
        ObstacleKind::CactusSmall2
    } else if i == 4 {
        ObstacleKind::CactusSmall3
    } else if i == 5 {
        ObstacleKind::CactusBig1
    } else if i == 6 {
        ObstacleKind::CactusBig2
    } else {
        ObstacleKind::CactusBig3
    }
}

impl ObstacleKind {
    /// Pick a kind from a host-supplied random number.
    pub fn from_rand(r: u64) -> (k: ObstacleKind)
        ensures
            k == kind_of_rand(r as int),
    {
        let i: u64 = r % 8;
        if i == 0 {
            ObstacleKind::Bird
        } else if i == 1 {
            ObstacleKind::LowBird
        } else if i == 2 {
            ObstacleKind::CactusSmall1
        } else if i == 3 {
            ObstacleKind::CactusSmall2
        } else if i == 4 {
            ObstacleKind::CactusSmall3
        } else if i == 5 {
            ObstacleKind::CactusBig1
        } else if i == 6 {
            ObstacleKind::CactusBig2
        } else {
            ObstacleKind::CactusBig3
        }
    }
}

/// The read-only art for every obstacle kind, loaded once by the host:
/// the bird frame table's metadata and the sprite-scale opacity mask of
/// each kind.
pub struct ObstacleImages {
    pub bird: TableInfo,
    pub bird_mask: PixelMask,
    pub cactus_small1: PixelMask,
    pub cactus_small2: PixelMask,
    pub cactus_small3: PixelMask,
    pub cactus_big1: PixelMask,
    pub cactus_big2: PixelMask,
    pub cactus_big3: PixelMask,
}

/// Mathematical view of [`ObstacleImages`].
pub struct ImagesView {
    pub bird: TableInfo,
    pub bird_mask: MaskView,
    pub cactus_small1: MaskView,
    pub cactus_small2: MaskView,
    pub cactus_small3: MaskView,
    pub cactus_big1: MaskView,
    pub cactus_big2: MaskView,
    pub cactus_big3: MaskView,
}

impl View for ObstacleImages {
    type V = ImagesView;

    open spec fn view(&self) -> ImagesView {
        ImagesView {
            bird: self.bird,
            bird_mask: self.bird_mask@,
            cactus_small1: self.cactus_small1@,
            cactus_small2: self.cactus_small2@,
            cactus_small3: self.cactus_small3@,
            cactus_big1: self.cactus_big1@,
            cactus_big2: self.cactus_big2@,
            cactus_big3: self.cactus_big3@,
        }
    }
}

/// A cactus mask is display-sized art at sprite scale.
pub open spec fn cactus_mask_wf(m: MaskView) -> bool {
    &&& mask_wf(m)
    &&& 0 <= m.width <= 400
    &&& 0 <= m.height <= 240
}

impl ImagesView {
    /// The bird table holds its two flap frames, the bird mask matches
    /// the bird sprite's 46 by 34 px size, and every cactus mask is
    /// display-sized.
    pub open spec fn wf(self) -> bool {
        &&& self.bird.frame_count == 2
        &&& mask_wf(self.bird_mask)
        &&& self.bird_mask.width == 46
        &&& self.bird_mask.height == 34
        &&& cactus_mask_wf(self.cactus_small1)
        &&& cactus_mask_wf(self.cactus_small2)
        &&& cactus_mask_wf(self.cactus_small3)
        &&& cactus_mask_wf(self.cactus_big1)
        &&& cactus_mask_wf(self.cactus_big2)
        &&& cactus_mask_wf(self.cactus_big3)
    }

    /// The mask used for a grounded kind.
    pub open spec fn cactus_mask_of(self, kind: ObstacleKind) -> MaskView {
        if kind == ObstacleKind::CactusSmall1 {
            self.cactus_small1
        } else if kind == ObstacleKind::CactusSmall2 {
            self.cactus_small2
        } else if kind == ObstacleKind::CactusSmall3 {
            self.cactus_small3
        } else if kind == ObstacleKind::CactusBig1 {
            self.cactus_big1
        } else if kind == ObstacleKind::CactusBig2 {
            self.cactus_big2
        } else {
            self.cactus_big3
        }
    }
}

/// One active obstacle: its kind, the looping flap animation for birds,
/// its world bounds (the collision rectangle coincides with the
/// bounds), and its opacity mask.
pub struct Obstacle {
    pub kind: ObstacleKind,
    pub anim: Option<BitmapAnimation>,
    pub bounds: Rect,
    pub mask: PixelMask,
}

/// Mathematical view of an [`Obstacle`].
pub struct ObstacleView {
    pub kind: ObstacleKind,
    pub anim: Option<AnimView>,
    pub bounds: RectView,
    pub mask: MaskView,
}

impl View for Obstacle {
    type V = ObstacleView;

    open spec fn view(&self) -> ObstacleView {
        ObstacleView {
            kind: self.kind,
            anim: match self.anim {
                Option::Some(a) => Option::Some(a@),
                Option::None => Option::None,
            },
            bounds: self.bounds@,
            mask: self.mask@,
        }
    }
}

impl ObstacleView {
    /// Bounds sit in the coordinate domain and agree with the mask's
    /// pixel size; exactly the bird kinds carry a (well-formed)
    /// animation.
    pub open spec fn wf(self) -> bool {
        &&& rect_in_domain(self.bounds)
        &&& mask_wf(self.mask)
        &&& self.bounds.w == self.mask.width * PX
        &&& self.bounds.h == self.mask.height * PX
        &&& (self.kind == ObstacleKind::Bird || self.kind == ObstacleKind::LowBird) <==> self.anim
            is Some
        &&& self.anim is Some ==> self.anim->0.wf()
    }

    /// The obstacle's right edge, in micro-pixels.
    pub open spec fn right_edge(self) -> int {
        self.bounds.x + self.bounds.w
    }
}

/// The flap animation a freshly spawned bird plays: both table frames,
/// 100 ms each, at half scale.
pub open spec fn bird_anim_view(table: TableInfo) -> AnimView {
    AnimView {
        table,
        frames: seq![0usize, 1usize],
        frame_time: 100,
        scale_permille: 500,
        current_frame: 0,
        current_time: 0,
    }
}

/// The obstacle spawned for a random draw `r`: it enters at the right
/// edge of the display; birds fly at one of the two fixed heights with
/// their flap animation, cacti stand on the ground with a mask-sized
/// static sprite.
pub open spec fn spawned_obstacle(images: ImagesView, r: int) -> ObstacleView {
    let kind = kind_of_rand(r);
    if kind == ObstacleKind::Bird || kind == ObstacleKind::LowBird {
        let y: int = if kind == ObstacleKind::Bird {
            BIRD_Y_UPX as int
        } else {
            LOW_BIRD_Y_UPX as int
        };
        ObstacleView {
            kind,
            anim: Option::Some(bird_anim_view(images.bird)),
            bounds: RectView {
                x: DISPLAY_WIDTH_UPX as int,
                y,
                w: 46 * PX as int,
                h: 34 * PX as int,
            },
            mask: images.bird_mask,
        }
    } else {
        let m = images.cactus_mask_of(kind);
        ObstacleView {
            kind,
            anim: Option::None,
            bounds: RectView {
                x: DISPLAY_WIDTH_UPX as int,
                y: OBSTACLE_GROUND_UPX - m.height * PX,
                w: m.width * PX,
                h: m.height * PX,
            },
            mask: m,
        }
    }
}

/// One tick of a single obstacle: while playing it moves left by the
/// world scroll velocity and a bird advances its flap animation;
/// otherwise it holds still.
pub open spec fn obstacle_step(
    o: ObstacleView,
    state: GameState,
    velocity: int,
    delta: int,
) -> ObstacleView {
    if state != GameState::Playing {
        o
    } else {
        let moved = RectView { x: advanced_pos(o.bounds.x, -velocity, delta), ..o.bounds };
        match o.anim {
            Option::Some(a) => ObstacleView {
                bounds: moved,
                anim: Option::Some(a.stepped(delta)),
                ..o
            },
            Option::None => ObstacleView { bounds: moved, ..o },
        }
    }
}

impl Obstacle {
    /// Spawn one obstacle of the kind picked by the host's random draw.
    pub fn new(images: &ObstacleImages, rand: u64) -> (o: Obstacle)
        requires
            images@.wf(),
        ensures
            o@ == spawned_obstacle(images@, rand as int),
            o@.wf(),
    {
        let kind = ObstacleKind::from_rand(rand);
        match kind {
            ObstacleKind::Bird | ObstacleKind::LowBird => {
                let y: i64 = if matches!(kind, ObstacleKind::Bird) {
                    BIRD_Y_UPX
                } else {
                    LOW_BIRD_Y_UPX
                };
                let mut frames: Vec<usize> = Vec::new();
                frames.push(0);
                frames.push(1);
                proof {
                    assert(frames@ =~= seq![0usize, 1usize]);
                }
                let anim = BitmapAnimation::new(images.bird, frames, 100, 500);
                let o = Obstacle {
                    kind,
                    anim: Option::Some(anim),
                    bounds: Rect { x: DISPLAY_WIDTH_UPX, y, w: 46 * PX, h: 34 * PX },
                    mask: images.bird_mask.duplicate(),
                };
                o
            },
            _ => {
                let m: &PixelMask = match kind {
                    ObstacleKind::CactusSmall1 => &images.cactus_small1,
                    ObstacleKind::CactusSmall2 => &images.cactus_small2,
                    ObstacleKind::CactusSmall3 => &images.cactus_small3,
                    ObstacleKind::CactusBig1 => &images.cactus_big1,
                    ObstacleKind::CactusBig2 => &images.cactus_big2,
                    _ => &images.cactus_big3,
                };
                let w: i64 = (m.width as i64) * PX;
                let h: i64 = (m.height as i64) * PX;
                let o = Obstacle {
                    kind,
                    anim: Option::None,
                    bounds: Rect { x: DISPLAY_WIDTH_UPX, y: OBSTACLE_GROUND_UPX - h, w, h },
                    mask: m.duplicate(),
                };
                o
            },
        }
    }

    /// One obstacle tick preserves well-formedness (stated over the
    /// view so callers can reason about whole pools).
    pub proof fn lemma_step_wf(o: ObstacleView, state: GameState, velocity: int, delta: int)
        requires
            o.wf(),
            0 <= delta,
        ensures
            obstacle_step(o, state, velocity, delta).wf(),
    {
        match o.anim {
            Option::Some(a) => {
                crate::animation::lemma_anim_step_wf(a, delta);
            },
            Option::None => {},
        }
    }

    /// One tick; returns the bird frame to draw, if this obstacle
    /// animates and the game is playing.
    pub fn update(&mut self, delta: i64, state: GameState, velocity: i64) -> (drawn: Option<
        usize,
    >)
        requires
            old(self)@.wf(),
            0 <= delta,
            0 <= velocity <= VEL_LIMIT,
        ensures
            final(self)@ == obstacle_step(old(self)@, state, velocity as int, delta as int),
            final(self)@.wf(),
            drawn is Some <==> (state == GameState::Playing && old(self)@.anim is Some),
            drawn is Some ==> drawn->0 == final(self)@.anim->0.drawn_frame(),
    {
        if !matches!(state, GameState::Playing) {
            return Option::None;
        }
        self.bounds.x = integrate(self.bounds.x, -velocity, delta);
        match &mut self.anim {
            Option::Some(a) => {
                let d: usize = a.update(delta);
                Option::Some(d)
            },
            Option::None => Option::None,
        }
    }
}

/// An obstacle survives the cull pass while its right edge has not
/// passed the world origin.
pub open spec fn keep_obstacle(o: ObstacleView) -> bool {
    o.right_edge() >= 0
}

/// The pool after the cull pass: the surviving obstacles in order.
pub open spec fn culled(s: Seq<ObstacleView>) -> Seq<ObstacleView>
    decreases s.len(),
{
    if s.len() == 0 {
        Seq::empty()
    } else {
        let rest = culled(s.drop_last());
        if keep_obstacle(s.last()) {
            rest.push(s.last())
        } else {
            rest
        }
    }
}

/// Every survivor of the cull pass keeps its right edge at or right of
/// the origin, and is one of the obstacles that entered the pass.
pub proof fn lemma_culled_props(s: Seq<ObstacleView>)
    ensures
        forall|i: int| 0 <= i < culled(s).len() ==> keep_obstacle(#[trigger] culled(s)[i]),
        forall|i: int|
            0 <= i < culled(s).len() ==> exists|j: int|
                0 <= j < s.len() && #[trigger] culled(s)[i] == s[j],
    decreases s.len(),
{
    if s.len() > 0 {
        lemma_culled_props(s.drop_last());
        assert forall|i: int| 0 <= i < culled(s).len() implies keep_obstacle(
            #[trigger] culled(s)[i],
        ) && exists|j: int| 0 <= j < s.len() && culled(s)[i] == s[j] by {
            let rest = culled(s.drop_last());
            if i < rest.len() {
                assert(culled(s)[i] == rest[i]);
                let j = choose|j: int| 0 <= j < s.drop_last().len() && rest[i] == s.drop_last()[j];
                assert(s.drop_last()[j] == s[j]);
                assert(culled(s)[i] == s[j]);
            } else {
                assert(keep_obstacle(s.last()));
                assert(culled(s)[i] == s.last());
                assert(s.last() == s[s.len() - 1]);
            }
        }
    }
}

/// All obstacles after each has taken one tick.
pub open spec fn moved_items(
    items: Seq<ObstacleView>,
    state: GameState,
    velocity: int,
    delta: int,
) -> Seq<ObstacleView> {
    Seq::new(items.len(), |i: int| obstacle_step(items[i], state, velocity, delta))
}

/// The active obstacle pool and the art it spawns from.
pub struct Obstacles {
    pub images: ObstacleImages,
    pub obstacles: Vec<Obstacle>,
}

/// The views of a pool of obstacles, in order.
pub open spec fn obstacle_views(s: Seq<Obstacle>) -> Seq<ObstacleView> {
    s.map_values(|o: Obstacle| o@)
}

/// Mathematical view of [`Obstacles`].
pub struct ObstaclesView {
    pub images: ImagesView,
    pub items: Seq<ObstacleView>,
}

impl View for Obstacles {
    type V = ObstaclesView;

    open spec fn view(&self) -> ObstaclesView {
        ObstaclesView { images: self.images@, items: obstacle_views(self.obstacles@) }
    }
}

impl ObstaclesView {
    /// The art is well formed and so is every active obstacle.
    pub open spec fn wf(self) -> bool {
        &&& self.images.wf()
        &&& forall|i: int| 0 <= i < self.items.len() ==> (#[trigger] self.items[i]).wf()
    }
}

/// One tick of the whole pool: every obstacle moves (while playing),
/// off-screen ones are culled the same tick, and if the pool emptied a
/// single new obstacle of random kind is spawned — so the pool is never
/// left empty.
pub open spec fn obstacles_step(
    v: ObstaclesView,
    state: GameState,
    velocity: int,
    rand: int,
    delta: int,
) -> ObstaclesView {
    let kept = culled(moved_items(v.items, state, velocity, delta));
    let items = if kept.len() == 0 {
        kept.push(spawned_obstacle(v.images, rand))
    } else {
        kept
    };
    ObstaclesView { images: v.images, items }
}

/// Obstacle recycle: after any tick the pool holds at least one
/// obstacle, and every obstacle's right edge is at or right of the
/// world origin — an obstacle that crossed is removed on the same
/// tick's cull pass, and an emptied pool is refilled at once.
pub proof fn lemma_obstacle_recycle(
    v: ObstaclesView,
    state: GameState,
    velocity: int,
    rand: int,
    delta: int,
)
    requires
        v.wf(),
    ensures
        obstacles_step(v, state, velocity, rand, delta).items.len() >= 1,
        forall|i: int|
            0 <= i < obstacles_step(v, state, velocity, rand, delta).items.len()
                ==> (#[trigger] obstacles_step(v, state, velocity, rand, delta).items[i])
                .right_edge() >= 0,
{
    let moved = moved_items(v.items, state, velocity, delta);
    lemma_culled_props(moved);
    let kept = culled(moved);
    if kept.len() == 0 {
        let sp = spawned_obstacle(v.images, rand);
        assert(sp.bounds.x == DISPLAY_WIDTH_UPX as int);
        assert(sp.bounds.w >= 0);
    }
}

impl Obstacles {
    /// An empty pool over the given art.
    pub fn new(images: ObstacleImages) -> (r: Obstacles)
        requires
            images@.wf(),
        ensures
            r@.images == images@,
            r@.items.len() == 0,
            r@.wf(),
    {
        let r = Obstacles { images, obstacles: Vec::new() };
        proof {
            assert(r@.items =~= Seq::<ObstacleView>::empty());
        }
        r
    }

    /// Drop every active obstacle (used on game start; the next tick
    /// respawns one).
    pub fn reset(&mut self)
        ensures
            final(self)@.images == old(self)@.images,
            final(self)@.items.len() == 0,
    {
        self.obstacles.clear();
        proof {
            assert(self@.items =~= Seq::<ObstacleView>::empty());
        }
    }

    /// One tick of the pool: move every obstacle (while playing), cull
    /// those whose right edge passed the world origin, and spawn one new
    /// obstacle of random kind if none remain. The pool is never left
    /// empty, and nothing in it sticks out past the left edge.
    #[verifier::loop_isolation(false)]
    pub fn update(&mut self, delta: i64, state: GameState, velocity: i64, rand: u64)
        requires
            old(self)@.wf(),
            0 <= delta,
            0 <= velocity <= VEL_LIMIT,
        ensures
            final(self)@ == obstacles_step(
                old(self)@,
                state,
                velocity as int,
                rand as int,
                delta as int,
            ),
            final(self)@.wf(),
            final(self)@.items.len() >= 1,
            forall|i: int|
                0 <= i < final(self)@.items.len()
                    ==> (#[trigger] final(self)@.items[i]).right_edge() >= 0,
    {
        let ghost prior: ObstaclesView = self@;
        let n: usize = self.obstacles.len();
        let ghost moved: Seq<ObstacleView> = moved_items(
            prior.items,
            state,
            velocity as int,
            delta as int,
        );
        // Advance every active obstacle by this tick.
        let mut i: usize = 0;
        while i < n
            invariant
                self.images@ == prior.images,
                self.obstacles@.len() == n,
                i <= n,
                forall|j: int| 0 <= j < i ==> #[trigger] self.obstacles@[j]@ == moved[j],
                forall|j: int| 0 <= j < i ==> (#[trigger] self.obstacles@[j]@).wf(),
                forall|j: int| i <= j < n ==> #[trigger] self.obstacles@[j]@ == prior.items[j],
            decreases n - i,
        {
            let ghost pre: Seq<Obstacle> = self.obstacles@;
            let slot = &mut self.obstacles[i];
            proof {
                assert(slot@ == pre[i as int]@);
                assert(slot@ == prior.items[i as int]);
            }
            let _ = slot.update(delta, state, velocity);
            proof {
                assert(self.obstacles@ == pre.update(i as int, self.obstacles@[i as int]));
                assert(self.obstacles@[i as int]@ == moved[i as int]);
                assert forall|j: int| 0 <= j < n && j != i as int implies self.obstacles@[j]
                    == pre[j] by {}
            }
            i = i + 1;
        }
        // Cull obstacles whose right edge passed the world origin,
        // keeping the rest in order.
        let mut kept: Vec<Obstacle> = Vec::new();
        proof {
            assert(obstacle_views(kept@) =~= Seq::<ObstacleView>::empty());
            assert(culled(moved.subrange(0, 0)) =~= Seq::<ObstacleView>::empty());
        }
        while self.obstacles.len() > 0
            invariant
                self.images@ == prior.images,
                self.obstacles@.len() <= n,
                moved.len() == n,
                forall|j: int|
                    0 <= j < self.obstacles@.len() ==> #[trigger] self.obstacles@[j]@ == moved[n
                        - self.obstacles@.len() + j],
                forall|j: int| 0 <= j < n ==> (#[trigger] moved[j]).wf(),
                obstacle_views(kept@) == culled(
                    moved.subrange(0, n - self.obstacles@.len()),
                ),
            decreases self.obstacles@.len(),
        {
            let ghost done: int = n - self.obstacles@.len();
            let o: Obstacle = self.obstacles.remove(0);
            proof {
                assert(o@ == moved[done]);
                assert(o@.wf());
                assert forall|j: int|
                    0 <= j < self.obstacles@.len() implies #[trigger] self.obstacles@[j]@
                    == moved[done + 1 + j] by {}
            }
            let right_ok: bool = o.bounds.x + o.bounds.w >= 0;
            let ghost kept_before: Seq<Obstacle> = kept@;
            if right_ok {
                kept.push(o);
            }
            proof {
                let sub1 = moved.subrange(0, done + 1);
                assert(sub1.drop_last() =~= moved.subrange(0, done));
                assert(sub1.last() == moved[done]);
                if right_ok {
                    assert(obstacle_views(kept@) =~= obstacle_views(kept_before).push(
                        moved[done],
                    ));
                } else {
                    assert(obstacle_views(kept@) =~= obstacle_views(kept_before));
                }
            }
        }
        proof {
            assert(moved.subrange(0, n as int) =~= moved);
        }
        // Single-obstacle spawn policy: refill only an emptied pool,
        // with exactly one obstacle.
        if kept.len() == 0 {
            let o = Obstacle::new(&self.images, rand);
            let ghost kept_before: Seq<Obstacle> = kept@;
            kept.push(o);
            proof {
                assert(obstacle_views(kept@) =~= obstacle_views(kept_before).push(
                    spawned_obstacle(prior.images, rand as int),
                ));
                assert(obstacle_views(kept_before) =~= culled(moved));
                assert(culled(moved).len() == 0);
            }
        }
        self.obstacles = kept;
        proof {
            assert(self@.items == obstacles_step(
                prior,
                state,
                velocity as int,
                rand as int,
                delta as int,
            ).items);
            lemma_culled_props(moved);
            assert forall|j: int| 0 <= j < self@.items.len() implies (#[trigger] self@.items[j])
                .wf() by {}
            lemma_obstacle_recycle(prior, state, velocity as int, rand as int, delta as int);
        }
    }
}

} // verus!
