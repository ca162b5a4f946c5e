//! Playback engine: per-frame durations, loop_start wrap, one-shot ->
//! fallback handoff, and state animations that play a few passes and then
//! settle. Pure (ms clock in), so the event loop only has to arm one timer at
//! `next_deadline_ms`.

use vstd::prelude::*;

use crate::sprite::animation::AnimationMap;
use crate::sprite::animation::AnimationView;
use crate::sprite::animation::Frame;
use crate::sprite::pet_json::PetDef;
use crate::strings::str_eq;

verus! {

/// How many passes a state track plays before it hands off to its fallback.
pub const STATE_PLAYS: u32 = 3;

/// Name of the track that every pet has.
pub open spec fn idle() -> Seq<char> {
    "idle"@
}

/// Animations that can be played: there is an idle track, and no track is
/// without frames.
pub open spec fn playable(animations: Map<Seq<char>, AnimationView>) -> bool {
    &&& animations.dom().contains(idle())
    &&& forall|name: Seq<char>| #[trigger] animations.dom().contains(name) ==> animations[name].frames.len() > 0
}

/// How long a frame is held: its duration, at least one millisecond, so that a
/// zero-duration frame cannot stall playback.
pub open spec fn hold_ms(frame: Frame) -> int {
    if frame.duration_ms >= 1 {
        frame.duration_ms as int
    } else {
        1
    }
}

/// Every frame of every track, started at `now_ms`, ends within the clock.
pub open spec fn clock_room(animations: Map<Seq<char>, AnimationView>, now_ms: u64) -> bool {
    forall|name: Seq<char>, i: int| #![trigger animations[name].frames[i]]
        animations.dom().contains(name) && 0 <= i < animations[name].frames.len() ==> now_ms + hold_ms(
            animations[name].frames[i],
        ) <= u64::MAX
}

/// Playback state.
#[verifier::ext_equal]
pub struct TimelineView {
    pub animations: Map<Seq<char>, AnimationView>,
    /// Track being played.
    pub current: Seq<char>,
    /// Visible frame of that track.
    pub frame: int,
    /// When the visible frame ends.
    pub deadline: int,
    /// `Some(n)`: n passes are left before the fallback handoff; `None`:
    /// ambient playback.
    pub passes_left: Option<u32>,
    /// The track was asked to loop: it starts over at its end, whatever it
    /// would do by itself.
    pub looping: bool,
    /// The track last asked for.
    pub requested: Seq<char>,
}

impl TimelineView {
    pub open spec fn track(self) -> AnimationView {
        self.animations[self.current]
    }

    pub open spec fn wf(self) -> bool {
        &&& playable(self.animations)
        &&& self.animations.dom().contains(self.current)
        &&& 0 <= self.frame < self.track().frames.len()
        &&& self.passes_left != Some(0u32)
        &&& self.looping ==> self.passes_left is None
    }

    /// How long the visible frame is held.
    pub open spec fn hold(self) -> int {
        hold_ms(self.track().frames[self.frame])
    }

    /// `name`, or idle where the pet has no such track.
    pub open spec fn existing(self, name: Seq<char>) -> Seq<char> {
        if self.animations.dom().contains(name) {
            name
        } else {
            idle()
        }
    }

    /// Ambient playback from the start of the current track's fallback.
    pub open spec fn handed_off(self) -> TimelineView {
        TimelineView {
            current: self.existing(self.track().fallback),
            frame: 0,
            passes_left: None,
            looping: false,
            ..self
        }
    }

    /// The frame that follows the visible one, before its deadline is set: the
    /// next of the track; past the last, the loop start while passes are left,
    /// the track was asked to loop or it loops by itself, else the fallback's
    /// first.
    pub open spec fn followed(self) -> TimelineView {
        let track = self.track();
        if self.frame + 1 < track.frames.len() {
            TimelineView { frame: self.frame + 1, ..self }
        } else if self.looping {
            TimelineView { frame: self.pass_start(), ..self }
        } else {
            match self.passes_left {
                Some(n) => if n == 1 {
                    self.handed_off()
                } else {
                    TimelineView {
                        passes_left: Some((n - 1) as u32),
                        frame: self.pass_start(),
                        ..self
                    }
                },
                None => match track.loop_start {
                    Some(start) => if start < track.frames.len() {
                        TimelineView { frame: start as int, ..self }
                    } else {
                        self.handed_off()
                    },
                    None => self.handed_off(),
                },
            }
        }
    }

    /// Where a further pass of the track begins.
    pub open spec fn pass_start(self) -> int {
        let last = self.track().frames.len() - 1;
        match self.track().loop_start {
            Some(start) => if start <= last {
                start as int
            } else {
                last
            },
            None => 0,
        }
    }

    /// The visible frame has ended and the next one is shown.
    pub open spec fn stepped(self) -> TimelineView {
        let next = self.followed();
        TimelineView { deadline: self.deadline + next.hold(), ..next }
    }

    /// Playback at `now`: every frame that has ended by then is left behind.
    pub open spec fn advanced(self, now: int) -> TimelineView
        decreases crate::ints::max_of(now - self.deadline + 1, 0),
    {
        if now < self.deadline {
            self
        } else {
            self.stepped().advanced(now)
        }
    }

    /// Playback switched to `name`'s first frame at `now`.
    pub open spec fn entered(self, name: Seq<char>, passes: Option<u32>, now: int) -> TimelineView {
        let start = TimelineView {
            current: self.existing(name),
            frame: 0,
            passes_left: passes,
            looping: false,
            ..self
        };
        TimelineView { deadline: now + start.hold(), ..start }
    }

    /// Playback after a state track is asked for: it goes on undisturbed where
    /// the track is the one already asked for, or the one already playing; else
    /// idle loops, and any other plays its passes.
    pub open spec fn state_requested(self, name: Seq<char>, now: int) -> TimelineView {
        if name == self.requested {
            self
        } else if name == self.current {
            TimelineView { requested: name, ..self }
        } else if name == idle() {
            TimelineView { requested: name, ..self }.entered(name, None, now)
        } else {
            TimelineView { requested: name, ..self }.entered(name, Some(STATE_PLAYS), now)
        }
    }

    /// Playback after a track is asked to loop.
    pub open spec fn loop_requested(self, name: Seq<char>, now: int) -> TimelineView {
        if name == self.requested {
            self
        } else {
            TimelineView { looping: true, ..TimelineView { requested: name, ..self }.entered(name, None, now) }
        }
    }
}

pub struct Timeline {
    animations: AnimationMap,
    current: String,
    frame_idx: usize,
    deadline_ms: u64,
    passes_left: Option<u32>,
    looping: bool,
    requested: String,
}

impl View for Timeline {
    type V = TimelineView;

    closed spec fn view(&self) -> TimelineView {
        TimelineView {
            animations: self.animations@,
            current: self.current@,
            frame: self.frame_idx as int,
            deadline: self.deadline_ms as int,
            passes_left: self.passes_left,
            looping: self.looping,
            requested: self.requested@,
        }
    }
}

/// Well-formedness is kept by every step.
pub proof fn stepped_wf(t: TimelineView)
    requires
        t.wf(),
    ensures
        t.stepped().wf(),
        t.stepped().animations == t.animations,
        t.stepped().requested == t.requested,
        t.stepped().deadline > t.deadline,
        t.stepped().deadline == t.deadline + t.stepped().hold(),
{
}

/// What is kept while playback advances, and where it stops: at the first
/// frame that ends after `now`.
pub proof fn advanced_wf(t: TimelineView, now: int)
    requires
        t.wf(),
    ensures
        t.advanced(now).wf(),
        t.advanced(now).animations == t.animations,
        t.advanced(now).requested == t.requested,
        t.advanced(now).deadline > now,
        t.advanced(now).deadline >= t.deadline,
        now < t.deadline ==> t.advanced(now) == t,
        now >= t.deadline ==> t.advanced(now).deadline - t.advanced(now).hold() <= now,
    decreases crate::ints::max_of(now - t.deadline + 1, 0),
{
    stepped_wf(t);
    if now >= t.deadline {
        advanced_wf(t.stepped(), now);
    }
}

impl Timeline {
    pub open spec fn wf(&self) -> bool {
        self@.wf() && self@.deadline <= u64::MAX
    }

    /// `pet.animations` must contain "idle" (the loader guarantees it).
    pub fn new(pet: &PetDef, now_ms: u64) -> (timeline: Self)
        requires
            playable(pet.animations@),
            now_ms + hold_ms(pet.animations@[idle()].frames[0]) <= u64::MAX,
        ensures
            timeline.wf(),
            timeline@ == (TimelineView {
                animations: pet.animations@,
                current: idle(),
                frame: 0,
                deadline: now_ms + hold_ms(pet.animations@[idle()].frames[0]),
                passes_left: None,
                looping: false,
                requested: idle(),
            }),
    {
        let mut timeline = Timeline {
            animations: pet.animations.clone(),
            current: "idle".to_owned(),
            frame_idx: 0,
            deadline_ms: now_ms,
            passes_left: None,
            looping: false,
            requested: "idle".to_owned(),
        };
        let hold: u64 = timeline.frame_duration();
        timeline.deadline_ms = now_ms + hold;
        timeline
    }

    /// Switch to a state track: plays `STATE_PLAYS` passes, then hands off to
    /// its fallback. Requesting the track already playing does not disturb it.
    pub fn request_state(&mut self, track: &str, now_ms: u64)
        requires
            old(self).wf(),
            old(self)@.state_requested(track@, now_ms as int).deadline <= u64::MAX,
        ensures
            final(self).wf(),
            final(self)@ == old(self)@.state_requested(track@, now_ms as int),
    {
        if str_eq(track, self.requested.as_str()) {
            return;
        }
        self.requested = track.to_owned();
        if str_eq(track, self.current.as_str()) {
            return;
        }
        if str_eq(track, "idle") {
            self.enter(track, None, now_ms);
        } else {
            self.enter(track, Some(STATE_PLAYS), now_ms);
        }
    }

    /// Play a track looping indefinitely (no burst, no settle) until the next
    /// request, also one that would hand off by itself. No-op if already the
    /// requested track.
    pub fn request_loop(&mut self, track: &str, now_ms: u64)
        requires
            old(self).wf(),
            old(self)@.loop_requested(track@, now_ms as int).deadline <= u64::MAX,
        ensures
            final(self).wf(),
            final(self)@ == old(self)@.loop_requested(track@, now_ms as int),
    {
        if str_eq(track, self.requested.as_str()) {
            return;
        }
        self.requested = track.to_owned();
        self.enter(track, None, now_ms);
        self.looping = true;
    }

    /// Step past any elapsed frame deadlines. Returns true if the visible
    /// sprite may have changed.
    pub fn advance(&mut self, now_ms: u64) -> (changed: bool)
        requires
            old(self).wf(),
            old(self)@.advanced(now_ms as int).deadline <= u64::MAX,
        ensures
            final(self).wf(),
            final(self)@ == old(self)@.advanced(now_ms as int),
            changed == (now_ms >= old(self)@.deadline),
    {
        let mut changed: bool = false;
        while now_ms >= self.deadline_ms
            invariant
                self.wf(),
                self@.animations == old(self)@.animations,
                old(self)@.advanced(now_ms as int) == self@.advanced(now_ms as int),
                self@.advanced(now_ms as int).deadline <= u64::MAX,
                changed == (self@ != old(self)@),
                changed ==> now_ms >= old(self)@.deadline,
                changed ==> self@.deadline > old(self)@.deadline,
            decreases crate::ints::max_of(now_ms - self@.deadline + 1, 0),
        {
            let ghost before = self@;
            proof {
                stepped_wf(before);
                advanced_wf(before.stepped(), now_ms as int);
            }
            changed = true;
            let (len, loop_start): (usize, Option<usize>) = match self.animations.get(self.current.as_str()) {
                Some(anim) => (anim.frames.len(), anim.loop_start),
                None => (0, None),
            };
            if self.frame_idx + 1 < len {
                self.frame_idx += 1;
            } else {
                // End of a pass.
                let pass_start: usize = match loop_start {
                    Some(start) => if start <= len - 1 {
                        start
                    } else {
                        len - 1
                    },
                    None => 0,
                };
                match self.passes_left {
                    Some(n) => {
                        if n == 1 {
                            self.hand_off();
                        } else {
                            self.passes_left = Some(n - 1);
                            self.frame_idx = pass_start;
                        }
                    },
                    None if self.looping => {
                        self.frame_idx = pass_start;
                    },
                    None => match loop_start {
                        Some(start) => {
                            if start < len {
                                self.frame_idx = start;
                            } else {
                                self.hand_off();
                            }
                        },
                        None => self.hand_off(),
                    },
                }
            }
            assert(self@ == before.followed());
            let hold: u64 = self.frame_duration();
            self.deadline_ms = self.deadline_ms + hold;
            assert(self@ == before.stepped());
        }
        changed
    }

    /// Play the current track's fallback from its start.
    fn hand_off(&mut self)
        requires
            old(self).wf(),
        ensures
            final(self).wf(),
            final(self)@ == old(self)@.handed_off(),
    {
        let fallback: String = match self.animations.get(self.current.as_str()) {
            Some(anim) => anim.fallback.clone(),
            None => "idle".to_owned(),
        };
        self.current = self.existing(fallback.as_str());
        self.frame_idx = 0;
        self.passes_left = None;
        self.looping = false;
    }

    pub fn sprite_index(&self) -> (index: usize)
        requires
            self.wf(),
        ensures
            index == self@.track().frames[self@.frame].sprite_index,
    {
        match self.animations.get(self.current.as_str()) {
            Some(anim) => anim.frames[self.frame_idx].sprite_index,
            None => 0,
        }
    }

    pub fn next_deadline_ms(&self) -> (at: u64)
        ensures
            at == self@.deadline,
    {
        self.deadline_ms
    }

    pub fn current_track(&self) -> (name: &str)
        ensures
            name@ == self@.current,
    {
        self.current.as_str()
    }

    /// Sprite indices of the whole current track (e.g. for content-extent
    /// queries that must stay stable across the track's frames).
    pub fn current_sprites(&self) -> (sprites: Vec<usize>)
        requires
            self.wf(),
        ensures
            sprites@ == self@.track().frames.map_values(|f: Frame| f.sprite_index),
    {
        let mut sprites: Vec<usize> = Vec::new();
        match self.animations.get(self.current.as_str()) {
            Some(anim) => {
                let mut i: usize = 0;
                while i < anim.frames.len()
                    invariant
                        i <= anim.frames@.len(),
                        sprites@.len() == i,
                        forall|k: int| 0 <= k < i ==> sprites@[k] == anim.frames@[k].sprite_index,
                    decreases anim.frames@.len() - i,
                {
                    sprites.push(anim.frames[i].sprite_index);
                    i += 1;
                }
                assert(sprites@ =~= anim.frames@.map_values(|f: Frame| f.sprite_index));
            },
            None => {},
        }
        sprites
    }

    /// Start `track` from its first frame, whatever was asked for before.
    pub fn enter(&mut self, track: &str, passes: Option<u32>, now_ms: u64)
        requires
            old(self).wf(),
            passes != Some(0u32),
            old(self)@.entered(track@, passes, now_ms as int).deadline <= u64::MAX,
        ensures
            final(self).wf(),
            final(self)@ == old(self)@.entered(track@, passes, now_ms as int),
    {
        self.current = self.existing(track);
        self.frame_idx = 0;
        self.passes_left = passes;
        self.looping = false;
        let hold: u64 = self.frame_duration();
        self.deadline_ms = now_ms + hold;
    }

    fn existing(&self, track: &str) -> (name: String)
        ensures
            name@ == self@.existing(track@),
    {
        if self.animations.contains_key(track) {
            track.to_owned()
        } else {
            "idle".to_owned()
        }
    }

    fn frame_duration(&self) -> (ms: u64)
        requires
            self.wf(),
        ensures
            ms == self@.hold(),
    {
        let ms: u64 = match self.animations.get(self.current.as_str()) {
            Some(anim) => anim.frames[self.frame_idx].duration_ms,
            None => 0,
        };
        if ms >= 1 {
            ms
        } else {
            1
        }
    }
}

/// While every frame that starts now ends within the clock, playback never
/// outruns it: whatever is asked for, and however far it advances.
pub proof fn clock_is_not_outrun(t: TimelineView, name: Seq<char>, now_ms: u64)
    requires
        t.wf(),
        t.deadline <= u64::MAX,
        clock_room(t.animations, now_ms),
    ensures
        t.state_requested(name, now_ms as int).deadline <= u64::MAX,
        t.loop_requested(name, now_ms as int).deadline <= u64::MAX,
        t.advanced(now_ms as int).deadline <= u64::MAX,
    decreases crate::ints::max_of(now_ms - t.deadline + 1, 0),
{
    assert(t.animations.dom().contains(t.existing(name)));
    assert(now_ms + hold_ms(t.animations[t.existing(name)].frames[0]) <= u64::MAX);
    if now_ms >= t.deadline {
        let next = t.stepped();
        stepped_wf(t);
        assert(now_ms + hold_ms(next.animations[next.current].frames[next.frame]) <= u64::MAX);
        clock_is_not_outrun(next, name, now_ms);
    }
}

/// Total hold of a track's frames from the `i`-th on.
pub open spec fn rest_ms(frames: Seq<Frame>, i: int) -> int
    decreases frames.len() - i,
{
    if i >= frames.len() {
        0
    } else {
        hold_ms(frames[i]) + rest_ms(frames, i + 1)
    }
}

/// When the passes that are left of a state track are over.
pub open spec fn burst_end(t: TimelineView) -> int {
    let frames = t.track().frames;
    t.deadline + rest_ms(frames, t.frame + 1) + (t.passes_left->0 - 1) * rest_ms(frames, t.pass_start())
}

/// Advancing in two steps is advancing in one: how often the clock is looked
/// at does not matter.
pub proof fn advance_composes(t: TimelineView, a: int, b: int)
    requires
        t.wf(),
        a <= b,
    ensures
        t.advanced(a).advanced(b) == t.advanced(b),
    decreases crate::ints::max_of(a - t.deadline + 1, 0),
{
    stepped_wf(t);
    if a >= t.deadline {
        advance_composes(t.stepped(), a, b);
    }
}

/// A state track keeps playing until its passes are over, and then hands off
/// to its fallback (or to idle, where the pet has no such track): at that
/// moment the fallback's first frame starts, in ambient playback.
pub proof fn burst_plays_then_settles(t: TimelineView)
    requires
        t.wf(),
        t.passes_left is Some,
    ensures
        t.deadline <= burst_end(t),
        forall|now: int| now < burst_end(t) ==> (#[trigger] t.advanced(now)).current == t.current && t.advanced(now).passes_left is Some,
        t.advanced(burst_end(t)) == (TimelineView {
            deadline: burst_end(t) + t.handed_off().hold(),
            ..t.handed_off()
        }),
    decreases t.passes_left->0, t.track().frames.len() - t.frame,
{
    let n = t.passes_left->0;
    let frames = t.track().frames;
    let next = t.stepped();
    stepped_wf(t);
    lemma_rest_nonneg(frames, t.frame + 1);
    lemma_rest_nonneg(frames, t.pass_start());
    assert((n - 1) * rest_ms(frames, t.pass_start()) >= 0) by (nonlinear_arith)
        requires
            n >= 1,
            rest_ms(frames, t.pass_start()) >= 0,
    ;
    if t.frame + 1 < frames.len() {
        burst_plays_then_settles(next);
        assert(burst_end(next) == burst_end(t));
        assert(next.handed_off() == (TimelineView { deadline: next.deadline, ..t.handed_off() }));
        assert forall|now: int| now < burst_end(t) implies (#[trigger] t.advanced(now)).current == t.current && t.advanced(now).passes_left is Some by {
            if now >= t.deadline {
                assert(t.advanced(now) == next.advanced(now));
            }
        }
    } else if n > 1 {
        burst_plays_then_settles(next);
        assert(burst_end(next) == burst_end(t)) by {
            let r = rest_ms(frames, t.pass_start());
            assert((n - 1) * r == r + (n - 2) * r) by (nonlinear_arith);
        }
        assert(next.handed_off() == (TimelineView { deadline: next.deadline, ..t.handed_off() }));
        assert forall|now: int| now < burst_end(t) implies (#[trigger] t.advanced(now)).current == t.current && t.advanced(now).passes_left is Some by {
            if now >= t.deadline {
                assert(t.advanced(now) == next.advanced(now));
            }
        }
    } else {
        assert(0 * rest_ms(frames, t.pass_start()) == 0);
        assert(burst_end(t) == t.deadline);
        assert(t.advanced(t.deadline) == next.advanced(t.deadline));
        assert(next.advanced(t.deadline) == next);
    }
}

proof fn lemma_rest_nonneg(frames: Seq<Frame>, i: int)
    ensures
        rest_ms(frames, i) >= 0,
    decreases frames.len() - i,
{
    if i < frames.len() {
        lemma_rest_nonneg(frames, i + 1);
    }
}

/// A newly requested state track that is not playing already plays
/// `STATE_PLAYS` passes: the first over all its frames, the others from its
/// loop start.
pub proof fn state_request_plays_its_passes(t: TimelineView, name: Seq<char>, now: int)
    requires
        t.wf(),
        t.animations.dom().contains(name),
        name != t.requested,
        name != t.current,
        name != idle(),
    ensures
        ({
            let u = t.state_requested(name, now);
            let end = now + rest_ms(t.animations[name].frames, 0) + (STATE_PLAYS - 1) * rest_ms(
                t.animations[name].frames,
                u.pass_start(),
            );
            &&& u.current == name
            &&& forall|later: int| later < end ==> (#[trigger] u.advanced(later)).current == name
            &&& u.advanced(end).current == t.existing(t.animations[name].fallback)
            &&& u.advanced(end).frame == 0
            &&& u.advanced(end).passes_left is None
        }),
{
    let u = t.state_requested(name, now);
    burst_plays_then_settles(u);
    assert(u.track() == t.animations[name]);
    assert(rest_ms(u.track().frames, 0) == hold_ms(u.track().frames[0]) + rest_ms(u.track().frames, 1));
}

/// A track that loops by itself never ends in ambient playback.
pub proof fn loop_never_settles(t: TimelineView, now: int)
    requires
        t.wf(),
        t.passes_left is None,
        t.track().loop_start matches Some(start) && start < t.track().frames.len(),
    ensures
        t.advanced(now).current == t.current,
        t.advanced(now).passes_left is None,
    decreases crate::ints::max_of(now - t.deadline + 1, 0),
{
    stepped_wf(t);
    if now >= t.deadline {
        loop_never_settles(t.stepped(), now);
    }
}

/// A track that was asked to loop is played until the next request, whether it
/// loops by itself or not.
pub proof fn looped_track_never_settles(t: TimelineView, name: Seq<char>, now: int, later: int)
    requires
        t.wf(),
        name != t.requested,
    ensures
        t.loop_requested(name, now).advanced(later).current == t.existing(name),
{
    asked_loop_goes_on(t.loop_requested(name, now), later);
}

/// Playback that was asked to loop keeps its track and goes on looping.
pub proof fn asked_loop_goes_on(t: TimelineView, now: int)
    requires
        t.wf(),
        t.looping,
    ensures
        t.advanced(now).current == t.current,
        t.advanced(now).looping,
    decreases crate::ints::max_of(now - t.deadline + 1, 0),
{
    stepped_wf(t);
    if now >= t.deadline {
        asked_loop_goes_on(t.stepped(), now);
    }
}

/// A track without a loop start, in ambient playback and not asked to loop, is
/// shown to its last frame and then hands off to its fallback.
pub proof fn one_shot_hands_off(t: TimelineView)
    requires
        t.wf(),
        t.passes_left is None,
        !t.looping,
        t.track().loop_start is None,
    ensures
        ({
            let end = t.deadline + rest_ms(t.track().frames, t.frame + 1);
            &&& forall|now: int| now < end ==> (#[trigger] t.advanced(now)).current == t.current
            &&& t.advanced(end) == (TimelineView { deadline: end + t.handed_off().hold(), ..t.handed_off() })
        }),
    decreases t.track().frames.len() - t.frame,
{
    let frames = t.track().frames;
    let end = t.deadline + rest_ms(frames, t.frame + 1);
    let next = t.stepped();
    stepped_wf(t);
    lemma_rest_nonneg(frames, t.frame + 1);
    if t.frame + 1 < frames.len() {
        one_shot_hands_off(next);
        assert(next.handed_off() == (TimelineView { deadline: next.deadline, ..t.handed_off() }));
        assert forall|now: int| now < end implies (#[trigger] t.advanced(now)).current == t.current by {
            if now >= t.deadline {
                assert(t.advanced(now) == next.advanced(now));
            }
        }
    } else {
        assert(t.advanced(t.deadline) == next.advanced(t.deadline));
        assert(next.advanced(t.deadline) == next);
    }
}

/// Asking again for what was asked for last changes nothing, however much
/// time passed.
pub proof fn repeated_request_is_a_no_op(t: TimelineView, name: Seq<char>, now: int, later: int)
    requires
        t.wf(),
    ensures
        t.state_requested(name, now).state_requested(name, later) == t.state_requested(name, now),
        t.loop_requested(name, now).loop_requested(name, later) == t.loop_requested(name, now),
        t.state_requested(name, now).advanced(later).state_requested(name, later) == t.state_requested(name, now).advanced(later),
{
    assert(t.state_requested(name, now).wf());
    advanced_wf(t.state_requested(name, now), later);
}

/// Asking for the state track that is already playing does not disturb it: it
/// goes on as it would have, however it came to be played.
pub proof fn playing_track_is_not_disturbed(t: TimelineView, now: int, later: int)
    requires
        t.wf(),
    ensures
        t.state_requested(t.current, now).advanced(later) == (TimelineView {
            requested: t.current,
            ..t.advanced(later)
        }),
{
    lemma_request_is_a_label(t, t.current, later);
}

/// What was asked for last has no part in how playback goes on.
proof fn lemma_request_is_a_label(t: TimelineView, name: Seq<char>, later: int)
    requires
        t.wf(),
    ensures
        (TimelineView { requested: name, ..t }).advanced(later) == (TimelineView {
            requested: name,
            ..t.advanced(later)
        }),
    decreases crate::ints::max_of(later - t.deadline + 1, 0),
{
    let u = TimelineView { requested: name, ..t };
    stepped_wf(t);
    stepped_wf(u);
    if later >= t.deadline {
        assert(u.stepped() == (TimelineView { requested: name, ..t.stepped() }));
        lemma_request_is_a_label(t.stepped(), name, later);
    }
}

/// A frame is held for its own duration, and for a millisecond where it has
/// none.
pub proof fn frames_are_held_for_their_duration(frame: Frame)
    ensures
        frame.duration_ms > 0 ==> hold_ms(frame) == frame.duration_ms,
        frame.duration_ms == 0 ==> hold_ms(frame) == 1,
{
}

/// A state track that is asked for anew starts at once, at its first frame, to
/// be played three times; idle is played on and on; a track that the pet does
/// not have is idle instead.
pub proof fn requested_state_starts_at_once(t: TimelineView, name: Seq<char>, now: int)
    requires
        t.wf(),
        name != t.requested,
        name != t.current,
    ensures
        ({
            let u = t.state_requested(name, now);
            let track = if t.animations.dom().contains(name) {
                name
            } else {
                "idle"@
            };
            &&& u.current == track
            &&& u.frame == 0
            &&& u.deadline == now + hold_ms(t.animations[track].frames[0])
            &&& name != "idle"@ ==> u.passes_left == Some(3u32)
            &&& name == "idle"@ ==> u.passes_left is None
            &&& !u.looping
            &&& u.requested == name
            &&& u.animations == t.animations
        }),
{
}

/// A track that is asked to loop starts at once, at its first frame, in place
/// of whatever was played.
pub proof fn requested_loop_starts_at_once(t: TimelineView, name: Seq<char>, now: int)
    requires
        t.wf(),
        name != t.requested,
    ensures
        ({
            let u = t.loop_requested(name, now);
            let track = if t.animations.dom().contains(name) {
                name
            } else {
                "idle"@
            };
            &&& u.current == track
            &&& u.frame == 0
            &&& u.deadline == now + hold_ms(t.animations[track].frames[0])
            &&& u.passes_left is None
            &&& u.requested == name
            &&& u.animations == t.animations
        }),
{
}

/// The same playback, that much later.
pub open spec fn later_by(t: TimelineView, ms: int) -> TimelineView {
    TimelineView { deadline: t.deadline + ms, ..t }
}

/// Only differences of time matter: playback that starts later is the same,
/// that much later.
pub proof fn playback_is_the_same_later(t: TimelineView, ms: int, now: int)
    requires
        t.wf(),
    ensures
        later_by(t, ms).advanced(now + ms) == later_by(t.advanced(now), ms),
    decreases crate::ints::max_of(now - t.deadline + 1, 0),
{
    let u = later_by(t, ms);
    stepped_wf(t);
    stepped_wf(u);
    if now >= t.deadline {
        assert(u.stepped() == later_by(t.stepped(), ms));
        playback_is_the_same_later(t.stepped(), ms, now);
    }
}

/// Within a pass the frames are shown in order, none left out, each for its own
/// hold: frame `k` comes up once those before it have had theirs.
pub proof fn frames_are_shown_in_order(t: TimelineView, k: int)
    requires
        t.wf(),
        t.frame < k < t.track().frames.len(),
    ensures
        ({
            let frames = t.track().frames;
            let at = t.deadline + rest_ms(frames, t.frame + 1) - rest_ms(frames, k);
            let u = t.advanced(at);
            &&& t.deadline <= at
            &&& u.current == t.current
            &&& u.frame == k
            &&& u.deadline == at + hold_ms(frames[k])
            &&& u.passes_left == t.passes_left
            &&& u.looping == t.looping
            &&& u.requested == t.requested
        }),
    decreases k - t.frame,
{
    let frames = t.track().frames;
    let next = t.stepped();
    stepped_wf(t);
    let at = t.deadline + rest_ms(frames, t.frame + 1) - rest_ms(frames, k);
    lemma_rest_order(frames, t.frame + 1, k);
    assert(t.advanced(at) == next.advanced(at));
    if k == t.frame + 1 {
        assert(next.advanced(at) == next);
    } else {
        assert(rest_ms(frames, t.frame + 1) == hold_ms(frames[t.frame + 1]) + rest_ms(frames, t.frame + 2));
        frames_are_shown_in_order(next, k);
    }
}

proof fn lemma_rest_order(frames: Seq<Frame>, i: int, k: int)
    requires
        i <= k,
    ensures
        rest_ms(frames, i) >= rest_ms(frames, k) >= 0,
        i < k && 0 <= i < frames.len() ==> rest_ms(frames, i) >= hold_ms(frames[i]) + rest_ms(frames, k),
    decreases k - i,
{
    lemma_rest_nonneg(frames, k);
    if i < k && i < frames.len() {
        lemma_rest_order(frames, i + 1, k);
    }
}

/// At the end of a pass an asked loop, a track that loops by itself, and a
/// state track with passes left all go on at their loop start (at the first
/// frame where a track has none, at the last where it lies beyond the track),
/// and of the passes one less is left.
pub proof fn passes_start_over_at_the_loop_start(t: TimelineView)
    requires
        t.wf(),
        t.frame == t.track().frames.len() - 1,
        t.looping || (t.passes_left is None && t.track().loop_start is Some && t.track().loop_start->0
            < t.track().frames.len()) || (t.passes_left is Some && t.passes_left->0 > 1),
    ensures
        ({
            let frames = t.track().frames;
            let u = t.advanced(t.deadline);
            &&& u.current == t.current
            &&& t.track().loop_start matches Some(s) ==> (s < frames.len() ==> u.frame == s)
            &&& t.track().loop_start matches Some(s) ==> (s >= frames.len() ==> u.frame == frames.len() - 1)
            &&& t.track().loop_start is None ==> u.frame == 0
            &&& u.deadline == t.deadline + hold_ms(frames[u.frame])
            &&& u.looping == t.looping
            &&& t.passes_left is None ==> u.passes_left is None
            &&& t.passes_left matches Some(n) ==> u.passes_left == Some((n - 1) as u32)
        }),
{
    stepped_wf(t);
    let next = t.stepped();
    assert(t.advanced(t.deadline) == next.advanced(t.deadline));
    assert(next.advanced(t.deadline) == next);
}

/// At the end of its last pass a state track, and at the end of its only one a
/// track that neither loops nor was asked to, gives way to its fallback, or to
/// idle where the pet has no such track: from its first frame, and to stay.
pub proof fn ended_tracks_give_way_to_their_fallback(t: TimelineView)
    requires
        t.wf(),
        t.frame == t.track().frames.len() - 1,
        t.passes_left == Some(1u32) || (t.passes_left is None && !t.looping && (t.track().loop_start is None
            || t.track().loop_start->0 >= t.track().frames.len())),
    ensures
        ({
            let u = t.advanced(t.deadline);
            let next = if t.animations.dom().contains(t.track().fallback) {
                t.track().fallback
            } else {
                "idle"@
            };
            &&& u.current == next
            &&& u.frame == 0
            &&& u.deadline == t.deadline + hold_ms(t.animations[next].frames[0])
            &&& u.passes_left is None
            &&& u.requested == t.requested
        }),
{
    stepped_wf(t);
    let next = t.stepped();
    assert(t.advanced(t.deadline) == next.advanced(t.deadline));
    assert(next.advanced(t.deadline) == next);
}

/// Where a loop over a track starts over.
pub open spec fn starts_over_at(track: AnimationView, start: int) -> bool {
    match track.loop_start {
        Some(s) => s == start < track.frames.len(),
        None => start == 0,
    }
}

proof fn lemma_back_after_a_period(t: TimelineView, start: int)
    requires
        t.wf(),
        t.looping,
        starts_over_at(t.track(), start),
        start <= t.frame,
    ensures
        ({
            let period = rest_ms(t.track().frames, start);
            t.advanced(t.deadline + period - t.hold()) == later_by(t, period)
        }),
{
    let frames = t.track().frames;
    let last = frames.len() - 1;
    let period = rest_ms(frames, start);
    // To the last frame of this pass.
    let end = t.deadline + rest_ms(frames, t.frame + 1);
    lemma_rest_nonneg(frames, t.frame + 1);
    assert(rest_ms(frames, last) == hold_ms(frames[last]) + rest_ms(frames, last + 1));
    let v = if t.frame < last {
        frames_are_shown_in_order(t, last);
        t.advanced(end - hold_ms(frames[last]))
    } else {
        t
    };
    assert(v.frame == last && v.current == t.current && v.looping && v.deadline == end);
    if t.frame < last {
        advanced_wf(t, end - hold_ms(frames[last]));
        advance_composes(t, end - hold_ms(frames[last]), end);
    }
    assert(v.wf());
    passes_start_over_at_the_loop_start(v);
    let w = v.advanced(end);
    assert(w == t.advanced(end));
    advanced_wf(v, end);
    assert(w.frame == start && w.current == t.current && w.passes_left is None && w.looping);
    // And on to the frame that was visible.
    let goal = t.deadline + period - t.hold();
    lemma_rest_order(frames, start, t.frame);
    assert(rest_ms(frames, t.frame) == t.hold() + rest_ms(frames, t.frame + 1));
    assert(rest_ms(frames, start) == hold_ms(frames[start]) + rest_ms(frames, start + 1));
    if start < t.frame {
        frames_are_shown_in_order(w, t.frame);
        lemma_rest_order(frames, start + 1, t.frame);
        advance_composes(t, end, goal);
        advanced_wf(w, goal);
        assert(t.advanced(goal) =~= later_by(t, period));
    } else {
        assert(goal == end);
        assert(t.advanced(goal) =~= later_by(t, period));
    }
}

/// An asked loop is periodic: from its loop start on, what is shown at any time
/// is shown again one round of its frames later, and so on for ever, with the
/// same frame that much longer to go.
pub proof fn asked_loop_is_periodic(t: TimelineView, start: int, now: int)
    requires
        t.wf(),
        t.looping,
        starts_over_at(t.track(), start),
        start <= t.frame,
        t.deadline - t.hold() <= now,
    ensures
        ({
            let period = rest_ms(t.track().frames, start);
            &&& period > 0
            &&& t.advanced(now + period) == later_by(t.advanced(now), period)
            &&& t.advanced(now + period).frame == t.advanced(now).frame
            &&& t.advanced(now + period).current == t.current
        }),
{
    let frames = t.track().frames;
    let period = rest_ms(frames, start);
    lemma_rest_nonneg(frames, start + 1);
    assert(rest_ms(frames, start) == hold_ms(frames[start]) + rest_ms(frames, start + 1));
    lemma_back_after_a_period(t, start);
    let back = t.deadline + period - t.hold();
    advance_composes(t, back, now + period);
    playback_is_the_same_later(t, period, now);
    asked_loop_goes_on(t, now + period);
    asked_loop_goes_on(t, now);
}

/// A walk that was just asked for goes round: each of its frames comes up for
/// its own hold, in order, and after the last comes its loop start again.
pub proof fn asked_loop_goes_round(t: TimelineView, name: Seq<char>, now: int, k: int, start: int)
    requires
        t.wf(),
        name != t.requested,
        t.animations.dom().contains(name),
        starts_over_at(t.animations[name], start),
        0 <= k < t.animations[name].frames.len(),
    ensures
        ({
            let frames = t.animations[name].frames;
            let u = t.loop_requested(name, now);
            let up = now + rest_ms(frames, 0) - rest_ms(frames, k);
            let end = now + rest_ms(frames, 0);
            &&& u.advanced(up).current == name
            &&& u.advanced(up).frame == k
            &&& u.advanced(up).deadline == up + hold_ms(frames[k])
            &&& u.advanced(end).current == name
            &&& u.advanced(end).frame == start
        }),
{
    let frames = t.animations[name].frames;
    let last = frames.len() - 1;
    let u = t.loop_requested(name, now);
    assert(u.wf());
    assert(u.track().frames == frames);
    assert(rest_ms(frames, 0) == hold_ms(frames[0]) + rest_ms(frames, 1));
    if k > 0 {
        frames_are_shown_in_order(u, k);
    } else {
        assert(u.advanced(now) == u);
    }
    lemma_rest_nonneg(frames, 1);
    let end = now + rest_ms(frames, 0);
    assert(rest_ms(frames, last) == hold_ms(frames[last]) + rest_ms(frames, last + 1));
    if last > 0 {
        frames_are_shown_in_order(u, last);
        let v = u.advanced(end - hold_ms(frames[last]));
        advanced_wf(u, end - hold_ms(frames[last]));
        advance_composes(u, end - hold_ms(frames[last]), end);
        passes_start_over_at_the_loop_start(v);
    } else {
        passes_start_over_at_the_loop_start(u);
    }
}

} // verus!
