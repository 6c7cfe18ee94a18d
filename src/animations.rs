use vstd::prelude::*;
use std::collections::HashMap;
use std::rc::Rc;
use crate::image::Image;
use crate::types::Rect;
use vstd::arithmetic::div_mod::{lemma_div_is_ordered, lemma_div_multiples_vanish};

verus! {

broadcast use vstd::std_specs::hash::group_hash_axioms;

/// Identifies an action (walk, jump, ...) whose clip a catalog holds.
pub type Action = u32;

/// Why an animation request failed.
#[derive(PartialEq, Eq, Structural, Clone, Copy, Debug)]
pub enum AnimationError {
    /// The catalog holds no clip for the requested action.
    UnknownAction,
    /// A clip needs at least one frame.
    EmptyClip,
}

/// An immutable clip: the sprite-sheet rectangle of each frame, a duration hint
/// per frame, and whether playback restarts at the end.
///
/// Playback is uniform: each frame is shown for `speedup_factor` ticks.
/// `frame_timings` is kept as metadata and does not affect which frame is shown.
#[derive(PartialEq, Clone, Debug)]
pub struct Animation {
    pub frames: Vec<Rect>,
    pub frame_timings: Vec<usize>,
    pub loops: bool,
}

impl Animation {
    /// At least one frame, and one timing per frame.
    pub open spec fn wf(&self) -> bool {
        self.frames@.len() > 0 && self.frame_timings@.len() == self.frames@.len()
    }

    /// The number of whole frame periods elapsed from `start` to `now`.
    pub open spec fn elapsed(start: int, now: int, speedup_factor: int) -> int {
        (now - start) / speedup_factor
    }

    /// The index of the frame shown at `now`: the elapsed periods, held at the last frame.
    pub open spec fn frame_index(&self, start: int, now: int, speedup_factor: int) -> int {
        let e = Self::elapsed(start, now, speedup_factor);
        if e < self.frames@.len() {
            e
        } else {
            self.frames@.len() - 1
        }
    }

    /// Every frame has been shown for its full period by `now`.
    pub open spec fn is_finished_spec(&self, start: int, now: int, speedup_factor: int) -> bool {
        Self::elapsed(start, now, speedup_factor) >= self.frames@.len()
    }

    /// A clip of `frames` with their `frame_timings`; fails on an empty frame list.
    pub fn new(frames: Vec<Rect>, frame_timings: Vec<usize>, loops: bool) -> (r: Result<
        Animation,
        AnimationError,
    >)
        requires
            frame_timings@.len() == frames@.len(),
        ensures
            frames@.len() == 0 ==> r == Err::<Animation, AnimationError>(AnimationError::EmptyClip),
            frames@.len() > 0 ==> (r matches Ok(a) && a.wf() && a.frames@ == frames@
                && a.frame_timings@ == frame_timings@ && a.loops == loops),
    {
        if frames.len() == 0 {
            Err(AnimationError::EmptyClip)
        } else {
            Ok(Animation { frames, frame_timings, loops })
        }
    }

    /// The first frame.
    pub fn initial_frame(&self) -> (r: Rect)
        requires
            self.wf(),
        ensures
            r == self.frames@[0],
    {
        self.frames[0]
    }

    /// The frame shown at `now` for playback that began at `start_time`,
    /// holding the last frame once the clip has run out.
    pub fn current_frame(&self, start_time: usize, now: usize, speedup_factor: &usize) -> (r: Rect)
        requires
            self.wf(),
            start_time <= now,
            *speedup_factor >= 1,
        ensures
            r == self.frames@[self.frame_index(start_time as int, now as int, *speedup_factor as int)],
    {
        let elapsed = (now - start_time) / *speedup_factor;
        let last = self.frames.len() - 1;
        if elapsed <= last {
            self.frames[elapsed]
        } else {
            self.frames[last]
        }
    }

    /// Whether every frame has been shown for its full period by `now`.
    pub fn is_finished(&self, start_time: usize, now: usize, speedup_factor: &usize) -> (r: bool)
        requires
            start_time <= now,
            *speedup_factor >= 1,
        ensures
            r == self.is_finished_spec(start_time as int, now as int, *speedup_factor as int),
    {
        (now - start_time) / *speedup_factor >= self.frames.len()
    }
}

/// Playback progress of one cursor through a shared clip.
#[derive(PartialEq, Clone, Debug)]
pub struct AnimationState {
    pub start_time: usize,
    pub now: usize,
    pub action: Action,
    pub animation: Rc<Animation>,
}

impl AnimationState {
    /// The clip is well formed and time has not run backwards.
    pub open spec fn wf(&self) -> bool {
        self.start_time <= self.now && self.animation.wf()
    }

    /// The state after one tick: time advances by one, and a looping clip
    /// that has run out restarts at `start_time`.
    pub open spec fn tick_spec(self, speedup_factor: usize) -> AnimationState {
        let t = self.now + 1;
        AnimationState {
            now: if self.animation.loops && self.animation.is_finished_spec(
                self.start_time as int,
                t,
                speedup_factor as int,
            ) {
                self.start_time
            } else {
                t as usize
            },
            ..self
        }
    }

    /// The rectangle that this state shows.
    pub open spec fn frame_spec(self, speedup_factor: usize) -> Rect {
        self.animation.frames@[self.animation.frame_index(
            self.start_time as int,
            self.now as int,
            speedup_factor as int,
        )]
    }

    /// The state after `k` ticks.
    pub open spec fn ticked(self, speedup_factor: usize, k: nat) -> AnimationState
        decreases k,
    {
        if k == 0 {
            self
        } else {
            self.ticked(speedup_factor, (k - 1) as nat).tick_spec(speedup_factor)
        }
    }

    /// Advances one tick and returns the rectangle now shown.
    ///
    /// A looping clip that runs out restarts at `start_time`; a clip that does
    /// not loop holds its last frame.
    pub fn tick(&mut self, speedup_factor: &usize) -> (r: Rect)
        requires
            old(self).wf(),
            *speedup_factor >= 1,
            old(self).now < usize::MAX,
        ensures
            *final(self) == old(self).tick_spec(*speedup_factor),
            final(self).wf(),
            r == final(self).frame_spec(*speedup_factor),
    {
        self.now = self.now + 1;
        if self.animation.is_finished(self.start_time, self.now, speedup_factor)
            && self.animation.loops {
            self.now = self.start_time;
        }
        self.animation.current_frame(self.start_time, self.now, speedup_factor)
    }
}

/// A sprite sheet and the clip of each action drawn from it.
pub struct AnimationSet {
    pub image: Image,
    pub animations: HashMap<Action, Rc<Animation>>,
}

impl AnimationSet {
    /// Every clip is well formed.
    pub open spec fn wf(&self) -> bool {
        forall|a: Action| #[trigger] self.animations@.contains_key(a) ==> self.animations@[a].wf()
    }

    /// The clip of `action`.
    pub fn get_animation(&self, action: Action) -> (r: Result<&Rc<Animation>, AnimationError>)
        ensures
            self.animations@.contains_key(action) ==> (r matches Ok(a) && *a
                == self.animations@[action]),
            !self.animations@.contains_key(action) ==> r == Err::<&Rc<Animation>, AnimationError>(
                AnimationError::UnknownAction,
            ),
    {
        match self.animations.get(&action) {
            Some(a) => Ok(a),
            None => Err(AnimationError::UnknownAction),
        }
    }

    /// A fresh cursor on the clip of `action`, starting at tick zero.
    pub fn play_animation(&self, action: Action) -> (r: Result<AnimationState, AnimationError>)
        ensures
            self.animations@.contains_key(action) ==> (r matches Ok(s) && s.start_time == 0
                && s.now == 0 && s.action == action && s.animation == self.animations@[action]),
            !self.animations@.contains_key(action) ==> r == Err::<AnimationState, AnimationError>(
                AnimationError::UnknownAction,
            ),
            self.wf() ==> (r matches Ok(s) ==> s.wf()),
    {
        match self.animations.get(&action) {
            Some(a) => Ok(AnimationState { start_time: 0, now: 0, action, animation: a.clone() }),
            None => Err(AnimationError::UnknownAction),
        }
    }

    /// The sprite sheet.
    pub fn get_image(&self) -> (r: &Image)
        ensures
            r == &self.image,
    {
        &self.image
    }
}


/// Without looping, each tick only advances time.
proof fn lemma_non_looping_ticked(s: AnimationState, speedup_factor: usize, k: nat)
    requires
        !s.animation.loops,
        s.now + k <= usize::MAX,
    ensures
        s.ticked(speedup_factor, k) == (AnimationState { now: (s.now + k) as usize, ..s }),
    decreases k,
{
    if k > 0 {
        lemma_non_looping_ticked(s, speedup_factor, (k - 1) as nat);
    }
}

/// A clip that does not loop, once at least `frames.len() * speedup_factor`
/// ticks have passed since playback began, keeps showing its last frame.
pub proof fn lemma_non_looping_holds_last_frame(s: AnimationState, speedup_factor: usize, k: nat)
    requires
        s.wf(),
        !s.animation.loops,
        speedup_factor >= 1,
        s.now + k <= usize::MAX,
        s.now - s.start_time + k >= s.animation.frames@.len() * speedup_factor,
    ensures
        s.ticked(speedup_factor, k).frame_spec(speedup_factor) == s.animation.frames@.last(),
{
    lemma_non_looping_ticked(s, speedup_factor, k);
    let n = s.animation.frames@.len() as int;
    let d = speedup_factor as int;
    lemma_div_multiples_vanish(n, d);
    assert(n * d == d * n) by (nonlinear_arith);
    lemma_div_is_ordered(d * n, s.now + k - s.start_time, d);
}

/// A looping clip ticked onto the end of its last frame restarts at its
/// first frame, with time back at `start_time`.
pub proof fn lemma_looping_restarts_at_boundary(s: AnimationState, speedup_factor: usize)
    requires
        s.wf(),
        s.animation.loops,
        speedup_factor >= 1,
        s.now < usize::MAX,
        s.now + 1 - s.start_time == s.animation.frames@.len() * speedup_factor,
    ensures
        s.tick_spec(speedup_factor).now == s.start_time,
        s.tick_spec(speedup_factor).frame_spec(speedup_factor) == s.animation.frames@[0],
{
    let n = s.animation.frames@.len() as int;
    let d = speedup_factor as int;
    lemma_div_multiples_vanish(n, d);
    assert(n * d == d * n) by (nonlinear_arith);
}

} // verus!
