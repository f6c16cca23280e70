//! Decorative background clouds: non-colliding sprites spawned at a
//! random position beyond the right edge of the display, drifting left
//! at a fraction of the ground velocity for parallax depth. Off-screen
//! clouds are culled each tick, and a new one is spawned whenever no
//! cloud still overlaps or lies beyond the right edge — a continuous
//! supply, unlike the single-obstacle policy.

use vstd::prelude::*;

use crate::args::{DISPLAY_WIDTH_UPX, VEL_LIMIT};
use crate::geom::{advanced_pos_parallax, integrate_parallax, rect_in_domain, Rect, RectView};
use crate::GameState;

verus! {

/// Width of a cloud sprite, in micro-pixels (46 px).
pub const CLOUD_W_UPX: i64 = 46_000_000;

/// Height of a cloud sprite, in micro-pixels (14 px).
pub const CLOUD_H_UPX: i64 = 14_000_000;

/// Size of the horizontal spawn range in micro-pixels: a cloud enters
/// anywhere from the display's right edge to one display width minus
/// its own width and the margin further right.
pub const CLOUD_X_RANGE_UPX: i64 = 322_000_001;

/// Lowest spawn y in micro-pixels (32 px from the top).
pub const CLOUD_Y_MIN_UPX: i64 = 32_000_000;

/// Size of the vertical spawn range in micro-pixels: clouds sit in the
/// upper half of the display.
pub const CLOUD_Y_RANGE_UPX: i64 = 88_000_001;

/// One background cloud; it owns nothing but its world bounds.
pub struct BGItem {
    pub bounds: Rect,
}

impl View for BGItem {
    type V = RectView;

    open spec fn view(&self) -> RectView {
        self.bounds@
    }
}

/// The bounds of a cloud spawned for the random draws `(rx, ry)`.
pub open spec fn spawned_bg_item(rx: int, ry: int) -> RectView {
    RectView {
        x: DISPLAY_WIDTH_UPX + rx % (CLOUD_X_RANGE_UPX as int),
        y: CLOUD_Y_MIN_UPX + ry % (CLOUD_Y_RANGE_UPX as int),
        w: CLOUD_W_UPX as int,
        h: CLOUD_H_UPX as int,
    }
}

/// One tick of a cloud: while playing it drifts left at 3/10 of the
/// scroll velocity; otherwise it holds still.
pub open spec fn bg_item_step(b: RectView, state: GameState, velocity: int, delta: int) -> RectView {
    if state != GameState::Playing {
        b
    } else {
        RectView { x: advanced_pos_parallax(b.x, velocity, delta), ..b }
    }
}

impl BGItem {
    /// Spawn a cloud at a random position beyond the right edge, in the
    /// upper half of the display.
    pub fn new(rand_x: u64, rand_y: u64) -> (b: BGItem)
        ensures
            b@ == spawned_bg_item(rand_x as int, rand_y as int),
            rect_in_domain(b@),
            b@.x >= DISPLAY_WIDTH_UPX,
    {
        let off_x: i64 = (rand_x % (CLOUD_X_RANGE_UPX as u64)) as i64;
        let off_y: i64 = (rand_y % (CLOUD_Y_RANGE_UPX as u64)) as i64;
        BGItem {
            bounds: Rect {
                x: DISPLAY_WIDTH_UPX + off_x,
                y: CLOUD_Y_MIN_UPX + off_y,
                w: CLOUD_W_UPX,
                h: CLOUD_H_UPX,
            },
        }
    }

    /// One tick of this cloud.
    pub fn update(&mut self, delta: i64, state: GameState, velocity: i64)
        requires
            rect_in_domain(old(self)@),
            0 <= delta,
            0 <= velocity <= VEL_LIMIT,
        ensures
            final(self)@ == bg_item_step(old(self)@, state, velocity as int, delta as int),
            rect_in_domain(final(self)@),
    {
        if !matches!(state, GameState::Playing) {
            return;
        }
        self.bounds.x = integrate_parallax(self.bounds.x, velocity, delta);
    }
}

/// A cloud survives the cull pass while its right edge has not passed
/// the world origin.
pub open spec fn keep_bg_item(b: RectView) -> bool {
    b.x + b.w >= 0
}

/// A cloud still supplies the right edge: part of it lies beyond the
/// display's right edge.
pub open spec fn bg_item_hidden(b: RectView) -> bool {
    b.x + b.w > DISPLAY_WIDTH_UPX
}

/// The clouds after the cull pass, in order.
pub open spec fn bg_culled(s: Seq<RectView>) -> Seq<RectView>
    decreases s.len(),
{
    if s.len() == 0 {
        Seq::empty()
    } else {
        let rest = bg_culled(s.drop_last());
        if keep_bg_item(s.last()) {
            rest.push(s.last())
        } else {
            rest
        }
    }
}

/// Every survivor of the cull pass satisfies the keep condition and
/// entered the pass.
pub proof fn lemma_bg_culled_props(s: Seq<RectView>)
    ensures
        forall|i: int| 0 <= i < bg_culled(s).len() ==> keep_bg_item(#[trigger] bg_culled(s)[i]),
        forall|i: int|
            0 <= i < bg_culled(s).len() ==> exists|j: int|
                0 <= j < s.len() && #[trigger] bg_culled(s)[i] == s[j],
    decreases s.len(),
{
    if s.len() > 0 {
        lemma_bg_culled_props(s.drop_last());
        assert forall|i: int| 0 <= i < bg_culled(s).len() implies keep_bg_item(
            #[trigger] bg_culled(s)[i],
        ) && exists|j: int| 0 <= j < s.len() && bg_culled(s)[i] == s[j] by {
            let rest = bg_culled(s.drop_last());
            if i < rest.len() {
                assert(bg_culled(s)[i] == rest[i]);
                let j = choose|j: int|
                    0 <= j < s.drop_last().len() && rest[i] == s.drop_last()[j];
                assert(s.drop_last()[j] == s[j]);
            } else {
                assert(bg_culled(s)[i] == s.last());
                assert(s.last() == s[s.len() - 1]);
            }
        }
    }
}

/// All clouds after each has taken one tick.
pub open spec fn bg_moved_items(
    items: Seq<RectView>,
    state: GameState,
    velocity: int,
    delta: int,
) -> Seq<RectView> {
    Seq::new(items.len(), |i: int| bg_item_step(items[i], state, velocity, delta))
}

/// One tick of the whole cloud layer.
pub open spec fn bg_items_step(
    items: Seq<RectView>,
    state: GameState,
    velocity: int,
    rx: int,
    ry: int,
    delta: int,
) -> Seq<RectView> {
    let kept = bg_culled(bg_moved_items(items, state, velocity, delta));
    if exists|i: int| 0 <= i < kept.len() && bg_item_hidden(#[trigger] kept[i]) {
        kept
    } else {
        kept.push(spawned_bg_item(rx, ry))
    }
}

/// The decorative cloud layer.
pub struct BGItems {
    pub items: Vec<BGItem>,
}

/// The views of a pool of clouds, in order.
pub open spec fn bg_views(s: Seq<BGItem>) -> Seq<RectView> {
    s.map_values(|b: BGItem| b@)
}

impl View for BGItems {
    type V = Seq<RectView>;

    open spec fn view(&self) -> Seq<RectView> {
        bg_views(self.items@)
    }
}

impl BGItems {
    /// Every cloud sits in the coordinate domain.
    pub open spec fn wf(self) -> bool {
        forall|i: int| 0 <= i < self@.len() ==> rect_in_domain(#[trigger] self@[i])
    }

    /// An empty cloud layer.
    pub fn new() -> (r: BGItems)
        ensures
            r@.len() == 0,
            r.wf(),
    {
        let r = BGItems { items: Vec::new() };
        proof {
            assert(r@ =~= Seq::<RectView>::empty());
        }
        r
    }

    /// Drop every cloud (used on game start).
    pub fn reset(&mut self)
        ensures
            final(self)@.len() == 0,
            final(self).wf(),
    {
        self.items.clear();
        proof {
            assert(self@ =~= Seq::<RectView>::empty());
        }
    }

    /// One tick of the layer: drift every cloud (while playing), cull
    /// those past the world origin, and spawn one new cloud whenever
    /// none still lies beyond the right edge — so the supply of clouds
    /// entering the display never runs dry.
    #[verifier::loop_isolation(false)]
    pub fn update(&mut self, delta: i64, state: GameState, velocity: i64, rand_x: u64, rand_y: u64)
        requires
            old(self).wf(),
            0 <= delta,
            0 <= velocity <= VEL_LIMIT,
        ensures
            final(self)@ == bg_items_step(
                old(self)@,
                state,
                velocity as int,
                rand_x as int,
                rand_y as int,
                delta as int,
            ),
            final(self).wf(),
            final(self)@.len() >= 1,
            exists|i: int| 0 <= i < final(self)@.len() && bg_item_hidden(#[trigger] final(self)@[i]),
    {
        let ghost prior: Seq<RectView> = self@;
        let n: usize = self.items.len();
        let ghost moved: Seq<RectView> = bg_moved_items(
            prior,
            state,
            velocity as int,
            delta as int,
        );
        // Drift every cloud by this tick.
        let mut i: usize = 0;
        while i < n
            invariant
                self.items@.len() == n,
                i <= n,
                forall|j: int| 0 <= j < i ==> #[trigger] self.items@[j]@ == moved[j],
                forall|j: int| 0 <= j < i ==> rect_in_domain(#[trigger] self.items@[j]@),
                forall|j: int| i <= j < n ==> #[trigger] self.items@[j]@ == prior[j],
            decreases n - i,
        {
            let ghost pre: Seq<BGItem> = self.items@;
            let slot = &mut self.items[i];
            proof {
                assert(slot@ == pre[i as int]@);
                assert(slot@ == prior[i as int]);
            }
            slot.update(delta, state, velocity);
            proof {
                assert(self.items@ == pre.update(i as int, self.items@[i as int]));
                assert(self.items@[i as int]@ == moved[i as int]);
                assert forall|j: int| 0 <= j < n && j != i as int implies self.items@[j]
                    == pre[j] by {}
            }
            i = i + 1;
        }
        // Cull clouds whose right edge passed the world origin.
        let mut kept: Vec<BGItem> = Vec::new();
        proof {
            assert(bg_views(kept@) =~= Seq::<RectView>::empty());
            assert(bg_culled(moved.subrange(0, 0)) =~= Seq::<RectView>::empty());
        }
        while self.items.len() > 0
            invariant
                self.items@.len() <= n,
                moved.len() == n,
                forall|j: int|
                    0 <= j < self.items@.len() ==> #[trigger] self.items@[j]@ == moved[n
                        - self.items@.len() + j],
                forall|j: int| 0 <= j < n ==> rect_in_domain(#[trigger] moved[j]),
                bg_views(kept@) == bg_culled(moved.subrange(0, n - self.items@.len())),
            decreases self.items@.len(),
        {
            let ghost done: int = n - self.items@.len();
            let b: BGItem = self.items.remove(0);
            proof {
                assert(b@ == moved[done]);
                assert(rect_in_domain(b@));
                assert forall|j: int|
                    0 <= j < self.items@.len() implies #[trigger] self.items@[j]@ == moved[done
                    + 1 + j] by {}
            }
            let right_ok: bool = b.bounds.x + b.bounds.w >= 0;
            let ghost kept_before: Seq<BGItem> = kept@;
            if right_ok {
                kept.push(b);
            }
            proof {
                let sub1 = moved.subrange(0, done + 1);
                assert(sub1.drop_last() =~= moved.subrange(0, done));
                assert(sub1.last() == moved[done]);
                if right_ok {
                    assert(bg_views(kept@) =~= bg_views(kept_before).push(moved[done]));
                } else {
                    assert(bg_views(kept@) =~= bg_views(kept_before));
                }
            }
        }
        proof {
            assert(moved.subrange(0, n as int) =~= moved);
        }
        // Spawn a new cloud unless one still lies beyond the right
        // edge of the display.
        let ghost culled_views: Seq<RectView> = bg_views(kept@);
        proof {
            lemma_bg_culled_props(moved);
            assert forall|j: int| 0 <= j < culled_views.len() implies rect_in_domain(
                #[trigger] culled_views[j],
            ) by {
                let w = choose|w: int|
                    0 <= w < moved.len() && bg_culled(moved)[j] == moved[w];
                assert(rect_in_domain(moved[w]));
            }
        }
        let mut has_hidden: bool = false;
        let kn: usize = kept.len();
        let mut k: usize = 0;
        while k < kn
            invariant
                kept@.len() == kn,
                k <= kn,
                bg_views(kept@) == bg_culled(moved),
                has_hidden == exists|j: int|
                    0 <= j < k && bg_item_hidden(#[trigger] bg_views(kept@)[j]),
                forall|j: int| 0 <= j < kn ==> rect_in_domain(#[trigger] bg_views(kept@)[j]),
            decreases kn - k,
        {
            let kb: &BGItem = &kept[k];
            proof {
                assert(kb@ == bg_views(kept@)[k as int]);
            }
            if kb.bounds.x + kb.bounds.w > DISPLAY_WIDTH_UPX {
                has_hidden = true;
            }
            k = k + 1;
        }
        if !has_hidden {
            let b = BGItem::new(rand_x, rand_y);
            let ghost kept_before: Seq<BGItem> = kept@;
            kept.push(b);
            proof {
                assert(bg_views(kept@) =~= bg_views(kept_before).push(
                    spawned_bg_item(rand_x as int, rand_y as int),
                ));
                let sp = spawned_bg_item(rand_x as int, rand_y as int);
                assert(bg_item_hidden(sp));
            }
        }
        let ghost final_views: Seq<RectView> = bg_views(kept@);
        let ghost sp: RectView = spawned_bg_item(rand_x as int, rand_y as int);
        proof {
            if has_hidden {
                assert(final_views == culled_views);
                let w = choose|j: int| 0 <= j < kn && bg_item_hidden(#[trigger] culled_views[j]);
                assert(bg_item_hidden(final_views[w]));
            } else {
                assert(final_views == culled_views.push(sp));
                assert(bg_item_hidden(final_views[kn as int]));
            }
            assert forall|j: int| 0 <= j < final_views.len() implies rect_in_domain(
                #[trigger] final_views[j],
            ) by {
                if j < kn {
                    assert(final_views[j] == culled_views[j]);
                } else {
                    assert(final_views[j] == sp);
                }
            }
        }
        self.items = kept;
        proof {
            assert(self@ == final_views);
            assert(self@.len() >= 1);
        }
    }
}

} // verus!
