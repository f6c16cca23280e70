//! Generic frame animation and the animation state machine.
//!
//! A [`BitmapAnimation`] plays a subsequence of frames from a shared
//! frame table, advancing on a per-frame timer and looping at the end of
//! the sequence. An [`AnimationStateMachine`] binds one animation to
//! each value of an enumerable state type, runs the state's transition
//! function each tick, and restarts the incoming animation on a state
//! change. Drawing is the host's job: each tick returns the table frame
//! index that the host should blit.

use vstd::prelude::*;

use vstd::arithmetic::div_mod::{
    lemma_add_mod_noop_right, lemma_basic_div, lemma_div_multiples_vanish, lemma_div_plus_one,
    lemma_mod_division_less_than_divisor, lemma_mod_multiples_basic, lemma_small_mod,
};

verus! {

/// An enumerable animation-state tag with a designated initial value and
/// a runnable equality test.
pub trait StateTag: Sized + Copy {
    /// The state a machine starts in and returns to on reset.
    spec fn initial_spec() -> Self;

    /// Runtime witness of [`StateTag::initial_spec`].
    fn initial() -> (s: Self)
        ensures
            s == Self::initial_spec(),
    ;

    /// Runtime equality of two state tags.
    fn state_eq(&self, other: &Self) -> (r: bool)
        ensures
            r == (*self == *other),
    ;
}

/// A state tag with a total transition function over a payload type `I`:
/// each tick it decides, from the current state and the payload, whether
/// to stay (`None`) or move to another state (`Some`).
pub trait AnimationState<I>: StateTag {
    /// The transition decision as a mathematical function.
    spec fn transition_spec(self, input: I, delta: int) -> Option<Self>;

    /// Runtime witness of [`AnimationState::transition_spec`].
    fn transition(&self, input: &I, delta: i64) -> (r: Option<Self>)
        requires
            0 <= delta,
        ensures
            r == self.transition_spec(*input, delta as int),
    ;
}

/// Metadata of a shared frame table: how many frames it holds and their
/// pixel size. The bitmaps themselves live with the host.
#[derive(Clone, Copy, PartialEq, Eq, Structural, Debug)]
pub struct TableInfo {
    pub frame_count: usize,
    pub frame_width: u32,
    pub frame_height: u32,
}

/// One bound animation: a frame subsequence over a table, a per-frame
/// duration in milliseconds, a draw scale in permille, and the running
/// frame index and elapsed-in-frame timer.
pub struct BitmapAnimation {
    pub table: TableInfo,
    pub frames: Vec<usize>,
    pub frame_time: i64,
    pub scale_permille: i64,
    pub current_frame: usize,
    pub current_time: i64,
}

/// Mathematical view of a [`BitmapAnimation`].
pub struct AnimView {
    pub table: TableInfo,
    pub frames: Seq<usize>,
    pub frame_time: int,
    pub scale_permille: int,
    pub current_frame: int,
    pub current_time: int,
}

impl View for BitmapAnimation {
    type V = AnimView;

    open spec fn view(&self) -> AnimView {
        AnimView {
            table: self.table,
            frames: self.frames@,
            frame_time: self.frame_time as int,
            scale_permille: self.scale_permille as int,
            current_frame: self.current_frame as int,
            current_time: self.current_time as int,
        }
    }
}

impl AnimView {
    /// The frame sequence is non-empty, every referenced frame exists in
    /// the table, the frame index is in range, and the timer is either
    /// mid-frame or freshly reset.
    pub open spec fn wf(self) -> bool {
        &&& self.frames.len() >= 1
        &&& forall|i: int|
            0 <= i < self.frames.len() ==> (#[trigger] self.frames[i]) < self.table.frame_count
        &&& 0 <= self.current_frame < self.frames.len()
        &&& 0 <= self.frame_time
        &&& 0 <= self.scale_permille
        &&& 0 <= self.current_time
        &&& self.current_time == 0 || self.current_time < self.frame_time
    }

    /// One tick: accumulate `delta` into the timer; at or past the frame
    /// duration, advance to the next frame modulo the sequence length
    /// and restart the timer.
    pub open spec fn stepped(self, delta: int) -> AnimView {
        if self.current_time + delta >= self.frame_time {
            AnimView {
                current_frame: (self.current_frame + 1) % (self.frames.len() as int),
                current_time: 0,
                ..self
            }
        } else {
            AnimView { current_time: self.current_time + delta, ..self }
        }
    }

    /// Rewind to the first frame with a zeroed timer.
    pub open spec fn reset_spec(self) -> AnimView {
        AnimView { current_frame: 0, current_time: 0, ..self }
    }

    /// The table frame index currently shown.
    pub open spec fn drawn_frame(self) -> int {
        self.frames[self.current_frame] as int
    }
}

impl BitmapAnimation {
    /// Bind a new animation to `table`, starting at frame 0 with a
    /// zeroed timer. Every frame index must exist in the table.
    pub fn new(
        table: TableInfo,
        frames: Vec<usize>,
        frame_time: i64,
        scale_permille: i64,
    ) -> (a: BitmapAnimation)
        requires
            frames@.len() >= 1,
            forall|i: int| 0 <= i < frames@.len() ==> (#[trigger] frames@[i]) < table.frame_count,
            0 <= frame_time,
            0 <= scale_permille,
        ensures
            a@ == (AnimView {
                table,
                frames: frames@,
                frame_time: frame_time as int,
                scale_permille: scale_permille as int,
                current_frame: 0,
                current_time: 0,
            }),
            a@.wf(),
    {
        BitmapAnimation { table, frames, frame_time, scale_permille, current_frame: 0, current_time: 0 }
    }

    /// One tick of this animation; returns the table frame index to draw.
    pub fn update(&mut self, delta: i64) -> (drawn: usize)
        requires
            old(self)@.wf(),
            0 <= delta,
        ensures
            final(self)@ == old(self)@.stepped(delta as int),
            final(self)@.wf(),
            drawn == final(self)@.drawn_frame(),
            drawn < final(self)@.table.frame_count,
    {
        let t2: i128 = self.current_time as i128 + delta as i128;
        if t2 >= self.frame_time as i128 {
            let n: usize = self.frames.len();
            let next: usize = self.current_frame + 1;
            proof {
                if next < n {
                    lemma_small_mod(next as nat, n as nat);
                } else {
                    assert(next == n);
                    vstd::arithmetic::div_mod::lemma_mod_self_0(n as int);
                }
            }
            if next >= n {
                self.current_frame = 0;
            } else {
                self.current_frame = next;
            }
            self.current_time = 0;
        } else {
            self.current_time = self.current_time + delta;
        }
        self.frames[self.current_frame]
    }

    /// Rewind to the first frame with a zeroed timer; draws nothing.
    pub fn reset(&mut self)
        requires
            old(self)@.wf(),
        ensures
            final(self)@ == old(self)@.reset_spec(),
            final(self)@.wf(),
    {
        self.current_frame = 0;
        self.current_time = 0;
    }
}

/// A state machine binding one [`BitmapAnimation`] to each registered
/// state of `S`, plus a registry of the shared frame tables the
/// animations draw from. Exactly one state is current at any time.
pub struct AnimationStateMachine<S> {
    pub tables: Vec<(String, TableInfo)>,
    pub state_keys: Vec<S>,
    pub anims: Vec<BitmapAnimation>,
    pub current_state: S,
}

/// Mathematical view of an [`AnimationStateMachine`]: the registered
/// tables by name, parallel sequences of registered states and their
/// animations, and the current state.
pub struct AsmView<S> {
    pub tables: Seq<(Seq<char>, TableInfo)>,
    pub states: Seq<S>,
    pub anims: Seq<AnimView>,
    pub current_state: S,
}

impl<S> View for AnimationStateMachine<S> {
    type V = AsmView<S>;

    open spec fn view(&self) -> AsmView<S> {
        AsmView {
            tables: self.tables@.map_values(|p: (String, TableInfo)| (p.0@, p.1)),
            states: self.state_keys@,
            anims: self.anims@.map_values(|a: BitmapAnimation| a@),
            current_state: self.current_state,
        }
    }
}

impl<S> AsmView<S> {
    /// Registered states are distinct, each has exactly one animation,
    /// and every animation is well formed.
    pub open spec fn wf(self) -> bool {
        &&& self.states.len() == self.anims.len()
        &&& forall|i: int, j: int|
            0 <= i < j < self.states.len() ==> self.states[i] != self.states[j]
        &&& forall|i: int| 0 <= i < self.anims.len() ==> (#[trigger] self.anims[i]).wf()
    }

    /// Some animation is registered for `s`.
    pub open spec fn has_state(self, s: S) -> bool {
        exists|i: int| 0 <= i < self.states.len() && self.states[i] == s
    }

    /// The registration slot of `s` (unique when the view is well formed
    /// and `s` is registered).
    pub open spec fn index_of(self, s: S) -> int {
        choose|i: int| 0 <= i < self.states.len() && self.states[i] == s
    }

    /// The animation registered for `s`.
    pub open spec fn anim_of(self, s: S) -> AnimView {
        self.anims[self.index_of(s)]
    }

    /// The state the machine moves to this tick: the transition
    /// function's answer, or the current state when it says stay.
    pub open spec fn next_state<I>(self, input: I, delta: int) -> S where S: AnimationState<I> {
        match self.current_state.transition_spec(input, delta) {
            Option::Some(s) => s,
            Option::None => self.current_state,
        }
    }

    /// One tick of the machine: move to the next state, restarting its
    /// animation if the state changed, then play one tick of it.
    pub open spec fn stepped<I>(self, input: I, delta: int) -> AsmView<S> where
        S: AnimationState<I>,
    {
        let next = self.next_state(input, delta);
        let i = self.index_of(next);
        let played = if next == self.current_state {
            self.anims[i].stepped(delta)
        } else {
            self.anims[i].reset_spec().stepped(delta)
        };
        AsmView { anims: self.anims.update(i, played), current_state: next, ..self }
    }

    /// The table frame index drawn by one tick of the machine.
    pub open spec fn stepped_drawn<I>(self, input: I, delta: int) -> int where
        S: AnimationState<I>,
    {
        self.stepped(input, delta).anims[self.index_of(self.next_state(input, delta))].drawn_frame()
    }
}

impl<S: StateTag> AnimationStateMachine<S> {
    /// An empty machine, current state the type's initial value.
    pub fn new() -> (m: AnimationStateMachine<S>)
        ensures
            m@.tables.len() == 0,
            m@.states.len() == 0,
            m@.anims.len() == 0,
            m@.current_state == S::initial_spec(),
            m@.wf(),
    {
        let m = AnimationStateMachine {
            tables: Vec::new(),
            state_keys: Vec::new(),
            anims: Vec::new(),
            current_state: S::initial(),
        };
        proof {
            assert(m@.anims =~= Seq::<AnimView>::empty());
        }
        m
    }

    /// Register a shared frame table under `name` and hand back its
    /// metadata. Loading the table's bitmaps from disk is the host's
    /// job; the machine records only the metadata that animations and
    /// contracts need.
    pub fn add_bitmap_table(
        &mut self,
        name: String,
        count: usize,
        width: u32,
        height: u32,
    ) -> (t: TableInfo)
        ensures
            t == (TableInfo { frame_count: count, frame_width: width, frame_height: height }),
            final(self)@ == (AsmView { tables: old(self)@.tables.push((name@, t)), ..old(self)@ }),
    {
        let t = TableInfo { frame_count: count, frame_width: width, frame_height: height };
        let ghost prior: AsmView<S> = self@;
        let ghost nv: Seq<char> = name@;
        let ghost pre: Seq<(String, TableInfo)> = self.tables@;
        self.tables.push((name, t));
        proof {
            assert(self.tables@ =~= pre.push(self.tables@[pre.len() as int]));
            assert(self@.tables =~= prior.tables.push((nv, t)));
            assert(self@.anims =~= prior.anims);
        }
        t
    }

    /// The slot where `s` is registered.
    fn find_state(&self, s: &S) -> (i: usize)
        requires
            self@.wf(),
            self@.has_state(*s),
        ensures
            0 <= i < self@.states.len(),
            self@.states[i as int] == *s,
            i as int == self@.index_of(*s),
    {
        let n: usize = self.state_keys.len();
        let mut i: usize = 0;
        while i < n
            invariant
                self@.wf(),
                self@.has_state(*s),
                n == self@.states.len(),
                i <= n,
                forall|j: int| 0 <= j < i ==> self@.states[j] != *s,
            decreases n - i,
        {
            if self.state_keys[i].state_eq(s) {
                proof {
                    let w = self@.index_of(*s);
                    assert(0 <= w < self@.states.len() && self@.states[w] == *s);
                    assert(w == i as int);
                }
                return i;
            }
            i = i + 1;
        }
        proof {
            let w = choose|j: int| 0 <= j < self@.states.len() && self@.states[j] == *s;
            assert(self@.states[w] != *s);
        }
        unreached()
    }

    /// Bind `anim` to `state`; a second binding for the same state
    /// replaces the first.
    #[verifier::loop_isolation(false)]
    pub fn add_state(&mut self, state: S, anim: BitmapAnimation)
        requires
            old(self)@.wf(),
            anim@.wf(),
        ensures
            final(self)@.wf(),
            final(self)@.current_state == old(self)@.current_state,
            final(self)@.tables == old(self)@.tables,
            forall|s: S| final(self)@.has_state(s) <==> (old(self)@.has_state(s) || s == state),
            final(self)@.anim_of(state) == anim@,
            forall|s: S|
                s != state && old(self)@.has_state(s) ==> #[trigger] final(self)@.anim_of(s)
                    == old(self)@.anim_of(s) && final(self)@.index_of(s) == old(
                    self,
                )@.index_of(s),
            !old(self)@.has_state(state) ==> final(self)@.states == old(self)@.states.push(state)
                && final(self)@.anims == old(self)@.anims.push(anim@),
            old(self)@.has_state(state) ==> final(self)@.states == old(self)@.states
                && final(self)@.anims == old(self)@.anims.update(
                old(self)@.index_of(state),
                anim@,
            ),
    {
        let ghost prior: AsmView<S> = self@;
        let ghost av: AnimView = anim@;
        let n: usize = self.state_keys.len();
        let mut i: usize = 0;
        while i < n
            invariant
                self@ == prior,
                prior.wf(),
                anim@ == av,
                av.wf(),
                n == prior.states.len(),
                i <= n,
                forall|j: int| 0 <= j < i ==> prior.states[j] != state,
            decreases n - i,
        {
            if self.state_keys[i].state_eq(&state) {
                let ghost pre: Seq<BitmapAnimation> = self.anims@;
                let slot = &mut self.anims[i];
                *slot = anim;
                proof {
                    assert(self.anims@ =~= pre.update(i as int, self.anims@[i as int]));
                    assert(self.anims@[i as int]@ == av);
                    assert(self@.states =~= prior.states);
                    assert forall|j: int| 0 <= j < n implies #[trigger] self@.anims[j]
                        == prior.anims.update(i as int, av)[j] by {
                        assert(self@.anims[j] == self.anims@[j]@);
                        if j != i as int {
                            assert(self.anims@[j] == pre[j]);
                        }
                    }
                    assert(self@.anims =~= prior.anims.update(i as int, av));
                    lemma_replace_at(prior, self@, i as int, state, av);
                    assert(prior.has_state(state)) by {
                        assert(0 <= i < prior.states.len() && prior.states[i as int] == state);
                    }
                    let wi = prior.index_of(state);
                    assert(0 <= wi < prior.states.len() && prior.states[wi] == state);
                    assert(wi == i as int);
                }
                return;
            }
            i = i + 1;
        }
        let ghost pre: Seq<BitmapAnimation> = self.anims@;
        self.state_keys.push(state);
        self.anims.push(anim);
        proof {
            assert(self@.states =~= prior.states.push(state));
            assert(self.anims@ =~= pre.push(self.anims@[n as int]));
            assert(self.anims@[n as int]@ == av);
            assert forall|j: int| 0 <= j < n + 1 implies #[trigger] self@.anims[j]
                == prior.anims.push(av)[j] by {
                assert(self@.anims[j] == self.anims@[j]@);
                if j != n as int {
                    assert(self.anims@[j] == pre[j]);
                }
            }
            assert(self@.anims =~= prior.anims.push(av));
            lemma_append_at(prior, self@, state, av);
        }
    }

    /// The current state tag.
    pub fn get_current_state(&self) -> (s: S)
        ensures
            s == self@.current_state,
    {
        self.current_state
    }

    /// Force the machine back to the initial state and rewind every
    /// registered animation (used on game restart).
    pub fn reset(&mut self)
        requires
            old(self)@.wf(),
        ensures
            final(self)@.wf(),
            final(self)@.current_state == S::initial_spec(),
            final(self)@.tables == old(self)@.tables,
            final(self)@.states == old(self)@.states,
            final(self)@.anims.len() == old(self)@.anims.len(),
            forall|i: int|
                0 <= i < old(self)@.anims.len() ==> #[trigger] final(self)@.anims[i] == old(
                    self,
                )@.anims[i].reset_spec(),
            final(self)@ == asm_reset_view::<S>(old(self)@),
    {
        let ghost prior: AsmView<S> = self@;
        self.current_state = S::initial();
        let n: usize = self.anims.len();
        let mut i: usize = 0;
        while i < n
            invariant
                prior.wf(),
                n == prior.anims.len(),
                i <= n,
                self@.tables == prior.tables,
                self.state_keys@ == prior.states,
                self.current_state == S::initial_spec(),
                self.anims@.len() == n,
                forall|j: int| 0 <= j < i ==> #[trigger] self.anims@[j]@ == prior.anims[j].reset_spec(),
                forall|j: int| i <= j < n ==> #[trigger] self.anims@[j]@ == prior.anims[j],
            decreases n - i,
        {
            let ghost pre: Seq<BitmapAnimation> = self.anims@;
            let slot = &mut self.anims[i];
            proof {
                assert(slot@ == pre[i as int]@);
                assert(slot@ == prior.anims[i as int]);
            }
            slot.reset();
            proof {
                assert(self.anims@ == pre.update(i as int, self.anims@[i as int]));
                assert(self.anims@[i as int]@ == prior.anims[i as int].reset_spec());
                assert forall|j: int| 0 <= j < n && j != i as int implies self.anims@[j]
                    == pre[j] by {}
            }
            i = i + 1;
        }
        proof {
            assert forall|j: int| 0 <= j < n implies #[trigger] self@.anims[j] == self.anims@[j]@
                by {}
            assert(self@.anims =~= asm_reset_view::<S>(prior).anims);
        }
    }

    /// One tick: run the transition function on `input`, swap and
    /// restart the animation on a state change, then play one tick of
    /// the current animation. Returns the table frame index to draw.
    /// The next state must have a registered animation.
    pub fn update<I>(&mut self, delta: i64, input: &I) -> (drawn: usize) where
        S: AnimationState<I>,
        requires
            old(self)@.wf(),
            0 <= delta,
            old(self)@.has_state(old(self)@.next_state(*input, delta as int)),
        ensures
            final(self)@ == old(self)@.stepped(*input, delta as int),
            final(self)@.wf(),
            drawn == old(self)@.stepped_drawn(*input, delta as int),
    {
        let ghost prior: AsmView<S> = self@;
        let cur: S = self.current_state;
        let next: S = match cur.transition(input, delta) {
            Option::Some(s) => s,
            Option::None => cur,
        };
        proof {
            assert(next == prior.next_state(*input, delta as int));
        }
        let i: usize = self.find_state(&next);
        let changed: bool = !next.state_eq(&self.current_state);
        let ghost pre: Seq<BitmapAnimation> = self.anims@;
        proof {
            assert(pre[i as int]@ == self@.anims[i as int]);
            assert(pre[i as int]@ == prior.anims[i as int]);
        }
        let slot = &mut self.anims[i];
        if changed {
            slot.reset();
        }
        let drawn: usize = slot.update(delta);
        self.current_state = next;
        proof {
            let ghost played: AnimView = if next == prior.current_state {
                prior.anims[i as int].stepped(delta as int)
            } else {
                prior.anims[i as int].reset_spec().stepped(delta as int)
            };
            assert(self.anims@ =~= pre.update(i as int, self.anims@[i as int]));
            assert(self.anims@[i as int]@ == played);
            assert forall|j: int| 0 <= j < pre.len() implies #[trigger] self@.anims[j]
                == prior.anims.update(i as int, played)[j] by {
                assert(self@.anims[j] == self.anims@[j]@);
                if j != i as int {
                    assert(self.anims@[j] == pre[j]);
                }
            }
            assert(self@.anims =~= prior.anims.update(i as int, played));
            assert(self@ == prior.stepped(*input, delta as int));
        }
        drawn
    }
}

/// Replacing the animation in the slot of `state` preserves the
/// machine's map-like reading.
proof fn lemma_replace_at<S>(prior: AsmView<S>, now: AsmView<S>, i: int, state: S, anim: AnimView)
    requires
        prior.wf(),
        anim.wf(),
        0 <= i < prior.states.len(),
        prior.states[i] == state,
        now.states == prior.states,
        now.anims == prior.anims.update(i, anim),
        now.tables == prior.tables,
        now.current_state == prior.current_state,
    ensures
        now.wf(),
        forall|s: S| now.has_state(s) <==> (prior.has_state(s) || s == state),
        now.anim_of(state) == anim,
        forall|s: S|
            s != state && prior.has_state(s) ==> #[trigger] now.anim_of(s) == prior.anim_of(s)
                && now.index_of(s) == prior.index_of(s),
{
    assert forall|s: S| now.has_state(s) <==> (prior.has_state(s) || s == state) by {
        if prior.has_state(s) || s == state {
            if s == state {
                assert(0 <= i < now.states.len() && now.states[i] == s);
            } else {
                let w = prior.index_of(s);
                assert(0 <= w < now.states.len() && now.states[w] == s);
            }
        }
    }
    assert(now.has_state(state));
    let wi = now.index_of(state);
    assert(0 <= wi < now.states.len() && now.states[wi] == state);
    assert(wi == i);
    assert forall|s: S| s != state && prior.has_state(s) implies #[trigger] now.anim_of(s)
        == prior.anim_of(s) && now.index_of(s) == prior.index_of(s) by {
        let wp = prior.index_of(s);
        assert(0 <= wp < prior.states.len() && prior.states[wp] == s);
        let wn = now.index_of(s);
        assert(0 <= wn < now.states.len() && now.states[wn] == s);
        assert(wn == wp);
        assert(wp != i);
    }
}

/// Appending a binding for a previously unregistered `state` preserves
/// the machine's map-like reading.
proof fn lemma_append_at<S>(prior: AsmView<S>, now: AsmView<S>, state: S, anim: AnimView)
    requires
        prior.wf(),
        anim.wf(),
        !prior.has_state(state),
        now.states == prior.states.push(state),
        now.anims == prior.anims.push(anim),
        now.tables == prior.tables,
        now.current_state == prior.current_state,
    ensures
        now.wf(),
        forall|s: S| now.has_state(s) <==> (prior.has_state(s) || s == state),
        now.anim_of(state) == anim,
        forall|s: S|
            s != state && prior.has_state(s) ==> #[trigger] now.anim_of(s) == prior.anim_of(s)
                && now.index_of(s) == prior.index_of(s),
{
    let n = prior.states.len() as int;
    assert forall|a: int, b: int| 0 <= a < b < now.states.len() implies now.states[a]
        != now.states[b] by {
        if b < n {
            assert(prior.states[a] != prior.states[b]);
        } else {
            assert(now.states[b] == state);
            if now.states[a] == state {
                assert(0 <= a < prior.states.len() && prior.states[a] == state);
                assert(prior.has_state(state));
            }
        }
    }
    assert forall|s: S| now.has_state(s) <==> (prior.has_state(s) || s == state) by {
        if prior.has_state(s) || s == state {
            if s == state {
                assert(now.states[n] == s);
                assert(0 <= n < now.states.len() && now.states[n] == s);
            } else {
                let w = prior.index_of(s);
                assert(0 <= w < now.states.len() && now.states[w] == s);
            }
        } else {
            if now.has_state(s) {
                let w = now.index_of(s);
                assert(0 <= w < now.states.len() && now.states[w] == s);
                if w < n {
                    assert(prior.states[w] == s);
                    assert(prior.has_state(s));
                } else {
                    assert(now.states[w] == state);
                }
            }
        }
    }
    assert(now.has_state(state));
    let wi = now.index_of(state);
    assert(0 <= wi < now.states.len() && now.states[wi] == state);
    if wi < n {
        assert(prior.states[wi] == state);
        assert(prior.has_state(state));
    }
    assert(wi == n);
    assert forall|s: S| s != state && prior.has_state(s) implies #[trigger] now.anim_of(s)
        == prior.anim_of(s) && now.index_of(s) == prior.index_of(s) by {
        let wp = prior.index_of(s);
        assert(0 <= wp < prior.states.len() && prior.states[wp] == s);
        let wn = now.index_of(s);
        assert(0 <= wn < now.states.len() && now.states[wn] == s);
        if wn == n {
            assert(now.states[wn] == state);
        }
        assert(wn == wp);
    }
}

/// The machine after a reset: back to the initial state with every
/// registered animation rewound.
pub open spec fn asm_reset_view<S: StateTag>(m: AsmView<S>) -> AsmView<S> {
    AsmView {
        current_state: S::initial_spec(),
        anims: Seq::new(m.anims.len(), |i: int| m.anims[i].reset_spec()),
        ..m
    }
}

/// Machines with the same registered states register the same states.
pub proof fn lemma_same_states_has<S>(a: AsmView<S>, b: AsmView<S>, s: S)
    requires
        a.states == b.states,
        a.has_state(s),
    ensures
        b.has_state(s),
{
    let w = choose|i: int| 0 <= i < a.states.len() && a.states[i] == s;
    assert(0 <= w < b.states.len() && b.states[w] == s);
}

/// One animation tick preserves well-formedness.
pub proof fn lemma_anim_step_wf(a: AnimView, delta: int)
    requires
        a.wf(),
        0 <= delta,
    ensures
        a.stepped(delta).wf(),
{
    if a.current_time + delta >= a.frame_time {
        lemma_mod_division_less_than_divisor(a.current_frame + 1, a.frames.len() as int);
    }
}

/// Total delta time of a sequence of ticks.
pub open spec fn sum_of(deltas: Seq<int>) -> int
    decreases deltas.len(),
{
    if deltas.len() == 0 {
        0
    } else {
        deltas[0] + sum_of(deltas.drop_first())
    }
}

/// The animation after playing a whole sequence of ticks.
pub open spec fn run_steps(a: AnimView, deltas: Seq<int>) -> AnimView
    decreases deltas.len(),
{
    if deltas.len() == 0 {
        a
    } else {
        run_steps(a.stepped(deltas[0]), deltas.drop_first())
    }
}

/// No tick overshoots a frame boundary: each delta is non-negative and
/// lands the timer at or before the frame duration. (A tick that jumps
/// past a boundary discards the overshoot, so only such sequences
/// sub-step exactly.)
pub open spec fn no_overshoot(a: AnimView, deltas: Seq<int>) -> bool
    decreases deltas.len(),
{
    if deltas.len() == 0 {
        true
    } else {
        &&& 0 <= deltas[0]
        &&& a.current_time + deltas[0] <= a.frame_time
        &&& no_overshoot(a.stepped(deltas[0]), deltas.drop_first())
    }
}

/// Animation looping is exact under sub-stepping: for any tick sequence
/// that never overshoots a frame boundary, the final frame index and
/// timer depend only on the total elapsed time — the frame advances once
/// per full frame duration, modulo the sequence length, and the timer
/// holds the remainder.
pub proof fn lemma_animation_substepping(a: AnimView, deltas: Seq<int>)
    requires
        a.wf(),
        1 <= a.frame_time,
        no_overshoot(a, deltas),
    ensures
        ({
            let total = a.current_time + sum_of(deltas);
            let r = run_steps(a, deltas);
            &&& r.current_frame == (a.current_frame + total / a.frame_time) % (
                a.frames.len() as int)
            &&& r.current_time == total % a.frame_time
            &&& r.frames == a.frames
            &&& r.table == a.table
            &&& r.frame_time == a.frame_time
            &&& r.scale_permille == a.scale_permille
        }),
    decreases deltas.len(),
{
    let t = a.frame_time;
    let n = a.frames.len() as int;
    if deltas.len() == 0 {
        assert(0 <= a.current_time < t);
        lemma_basic_div(a.current_time, t);
        lemma_small_mod(a.current_time as nat, t as nat);
        lemma_small_mod(a.current_frame as nat, n as nat);
    } else {
        let d = deltas[0];
        let rest = deltas.drop_first();
        let a1 = a.stepped(d);
        if a.current_time + d < t {
            lemma_animation_substepping(a1, rest);
            assert(a1.current_time + sum_of(rest) == a.current_time + sum_of(deltas));
        } else {
            assert(a.current_time + d == t);
            lemma_mod_division_less_than_divisor(a.current_frame + 1, n);
            assert(a1.wf());
            lemma_animation_substepping(a1, rest);
            let s = sum_of(rest);
            assert(sum_of(deltas) == d + s);
            assert(a.current_time + sum_of(deltas) == t + s);
            // Each side of the frame-index equation folds one full frame
            // duration into one frame advance.
            lemma_div_plus_one(s, t);
            assert((t + s) / t == 1 + s / t);
            let q = s / t;
            lemma_add_mod_noop_right(q, a.current_frame + 1, n);
            assert((q + (a.current_frame + 1) % n) % n == (q + (a.current_frame + 1)) % n);
            assert(run_steps(a, deltas).current_frame == ((a.current_frame + 1) % n + q) % n);
            // And the timers agree because one full duration vanishes
            // from the remainder.
            vstd::arithmetic::div_mod::lemma_mod_add_multiples_vanish(s, t);
            assert((t + s) % t == s % t);
        }
    }
}

/// Animation looping: from a fresh animation, any no-overshoot tick
/// sequence totalling exactly `k` frame durations lands on frame
/// `k mod N` with a zeroed timer — one large boundary-sized delta and
/// many small deltas summing identically agree.
pub proof fn lemma_animation_looping(a: AnimView, deltas: Seq<int>, k: int)
    requires
        a.wf(),
        a.current_frame == 0,
        a.current_time == 0,
        1 <= a.frame_time,
        0 <= k,
        no_overshoot(a, deltas),
        sum_of(deltas) == k * a.frame_time,
    ensures
        run_steps(a, deltas).current_frame == k % (a.frames.len() as int),
        run_steps(a, deltas).current_time == 0,
{
    lemma_animation_substepping(a, deltas);
    lemma_div_multiples_vanish(k, a.frame_time);
    assert((a.frame_time * k) / a.frame_time == k);
    lemma_mod_multiples_basic(k, a.frame_time);
    assert((k * a.frame_time) % a.frame_time == 0);
    assert(k * a.frame_time == a.frame_time * k) by (nonlinear_arith);
}

} // verus!
