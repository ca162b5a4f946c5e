//! Pure focus-settle debounce. Raw active-window facts arrive faster than
//! the daemon needs them (alt-tab flicker, rapid re-focus); this coalesces a
//! stream of facts into a single emit once focus has held on the same value
//! for the quiet period. It never emits the same value twice in a row.
//!
//! Instants are nanoseconds on the owner's clock.

use vstd::prelude::*;

use crate::proto::clone_window;
use crate::proto::same_window;
use crate::proto::ActiveWindow;
use crate::proto::ActiveWindowView;

verus! {

/// Default quiet period before a focus change is reported.
pub const DEFAULT_SETTLE_MS: u64 = 300;

/// Nanoseconds in a millisecond.
pub const NANOS_PER_MS: u64 = 1_000_000;

#[derive(Debug)]
pub struct Settle {
    quiet_ms: u64,
    /// Last value actually emitted (dedup guard).
    emitted: Option<ActiveWindow>,
    /// Candidate awaiting the quiet period, plus its deadline.
    pending: Option<(Option<ActiveWindow>, u64)>,
}

/// What the owner should do after feeding a fact or checking the timer.
#[derive(Debug, PartialEq, Eq)]
pub enum Action {
    /// Nothing to do (fact matched the settled value).
    Nothing,
    /// Arm/keep a timer for this instant, then call `Settle::on_timer`.
    ArmTimer(u64),
    /// Emit this active-window fact to the daemon now.
    Emit(Option<ActiveWindow>),
}

/// What an `Action` says.
pub enum ActionView {
    Nothing,
    ArmTimer(int),
    Emit(Option<ActiveWindowView>),
}

impl View for Action {
    type V = ActionView;

    open spec fn view(&self) -> ActionView {
        match self {
            Action::Nothing => ActionView::Nothing,
            Action::ArmTimer(at) => ActionView::ArmTimer(*at as int),
            Action::Emit(window) => ActionView::Emit(crate::proto::window_view(*window)),
        }
    }
}

/// Debounce state.
pub struct SettleView {
    pub quiet: int,
    pub emitted: Option<ActiveWindowView>,
    pub pending: Option<(Option<ActiveWindowView>, int)>,
}

impl SettleView {
    /// What awaits its quiet period differs from what was reported last.
    pub open spec fn wf(self) -> bool {
        self.pending matches Some(p) ==> p.0 != self.emitted
    }

    /// The fact is news: neither the settled value nor the candidate.
    pub open spec fn is_news(self, value: Option<ActiveWindowView>) -> bool {
        self.emitted != value && !(self.pending matches Some(p) && p.0 == value)
    }

    /// A fact observed at `now`: the settled value drops any candidate; the
    /// candidate itself keeps its deadline; anything else becomes the
    /// candidate, due a quiet period later.
    pub open spec fn observed(self, value: Option<ActiveWindowView>, now: int) -> (SettleView, ActionView) {
        if self.emitted == value {
            (SettleView { pending: None, ..self }, ActionView::Nothing)
        } else {
            match self.pending {
                Some((candidate, deadline)) if candidate == value => (self, ActionView::ArmTimer(deadline)),
                _ => (
                    SettleView { pending: Some((value, now + self.quiet)), ..self },
                    ActionView::ArmTimer(now + self.quiet),
                ),
            }
        }
    }

    /// The timer at `now`: a candidate that is due is emitted; one that is not
    /// is waited for.
    pub open spec fn ticked(self, now: int) -> (SettleView, ActionView) {
        match self.pending {
            Some((candidate, deadline)) => if now >= deadline {
                (SettleView { emitted: candidate, pending: None, ..self }, ActionView::Emit(candidate))
            } else {
                (self, ActionView::ArmTimer(deadline))
            },
            None => (self, ActionView::Nothing),
        }
    }
}

impl View for Settle {
    type V = SettleView;

    closed spec fn view(&self) -> SettleView {
        SettleView {
            quiet: self.quiet_ms * NANOS_PER_MS,
            emitted: crate::proto::window_view(self.emitted),
            pending: match self.pending {
                Some(p) => Some((crate::proto::window_view(p.0), p.1 as int)),
                None => None,
            },
        }
    }
}

impl Settle {
    pub fn new(settle_ms: u64) -> (settle: Self)
        ensures
            settle@ == (SettleView { quiet: settle_ms * NANOS_PER_MS, emitted: None, pending: None }),
            settle@.wf(),
    {
        Settle { quiet_ms: settle_ms, emitted: None, pending: None }
    }

    /// Feed a raw fact observed at `now`.
    pub fn observe(&mut self, value: Option<ActiveWindow>, now: u64) -> (action: Action)
        requires
            old(self)@.is_news(crate::proto::window_view(value)) ==> now + old(self)@.quiet <= u64::MAX,
        ensures
            (final(self)@, action@) == old(self)@.observed(crate::proto::window_view(value), now as int),
            old(self)@.wf() ==> final(self)@.wf(),
    {
        // Already settled on this exact value: cancel any stale candidate.
        if same_window(&self.emitted, &value) {
            self.pending = None;
            return Action::Nothing;
        }
        // Same candidate still pending: keep its original deadline (a stable
        // target must not have its quiet period refreshed by duplicates).
        if let Some((pending, deadline)) = &self.pending {
            if same_window(pending, &value) {
                return Action::ArmTimer(*deadline);
            }
        }
        let deadline: u64 = now + self.quiet_ms * NANOS_PER_MS;
        self.pending = Some((value, deadline));
        Action::ArmTimer(deadline)
    }

    /// Called when a timer set for `now` fires (or any later check).
    pub fn on_timer(&mut self, now: u64) -> (action: Action)
        ensures
            (final(self)@, action@) == old(self)@.ticked(now as int),
            old(self)@.wf() ==> final(self)@.wf(),
    {
        let due: Option<Option<ActiveWindow>> = match &self.pending {
            Some((value, deadline)) => {
                if now >= *deadline {
                    Some(clone_window(value))
                } else {
                    // Candidate changed under us / not due yet: re-arm to the
                    // current deadline so the owner keeps a single live timer.
                    return Action::ArmTimer(*deadline);
                }
            },
            None => None,
        };
        match due {
            Some(value) => {
                self.emitted = clone_window(&value);
                self.pending = None;
                Action::Emit(value)
            },
            None => Action::Nothing,
        }
    }
}

/// Something that happens to the debounce: a fact arrives, or the timer fires.
pub struct Happening {
    pub at: int,
    /// `None`: the timer.
    pub fact: Option<Option<ActiveWindowView>>,
}

/// State after one happening.
pub open spec fn after_one(s: SettleView, h: Happening) -> SettleView {
    match h.fact {
        Some(value) => s.observed(value, h.at).0,
        None => s.ticked(h.at).0,
    }
}

/// What one happening makes the debounce emit.
pub open spec fn emission(s: SettleView, h: Happening) -> Option<Option<ActiveWindowView>> {
    match h.fact {
        Some(value) => match s.observed(value, h.at).1 {
            ActionView::Emit(w) => Some(w),
            _ => None,
        },
        None => match s.ticked(h.at).1 {
            ActionView::Emit(w) => Some(w),
            _ => None,
        },
    }
}

/// State after a run of happenings.
pub open spec fn after(s: SettleView, run: Seq<Happening>) -> SettleView
    decreases run.len(),
{
    if run.len() == 0 {
        s
    } else {
        after_one(after(s, run.drop_last()), run.last())
    }
}

/// Everything that a run of happenings makes the debounce emit, in order.
pub open spec fn emissions(s: SettleView, run: Seq<Happening>) -> Seq<Option<ActiveWindowView>>
    decreases run.len(),
{
    if run.len() == 0 {
        Seq::empty()
    } else {
        let before = emissions(s, run.drop_last());
        match emission(after(s, run.drop_last()), run.last()) {
            Some(w) => before.push(w),
            None => before,
        }
    }
}

/// Whatever happens, in whatever order and at whatever times, no value is
/// emitted twice in a row, nor one that was already the settled one.
pub proof fn never_emits_a_value_twice_in_a_row(s: SettleView, run: Seq<Happening>)
    requires
        s.wf(),
    ensures
        after(s, run).wf(),
        forall|i: int|
            0 <= i < emissions(s, run).len() - 1 ==> #[trigger] emissions(s, run)[i] != emissions(s, run)[i + 1],
        emissions(s, run).len() > 0 ==> emissions(s, run)[0] != s.emitted && emissions(s, run).last() == after(
            s,
            run,
        ).emitted,
        emissions(s, run).len() == 0 ==> after(s, run).emitted == s.emitted,
    decreases run.len(),
{
    if run.len() > 0 {
        never_emits_a_value_twice_in_a_row(s, run.drop_last());
    }
}

/// From happening `j` on, every fact of the run is `value`, and `j` is one.
pub open spec fn held_since(run: Seq<Happening>, j: int, value: Option<ActiveWindowView>) -> bool {
    &&& 0 <= j < run.len()
    &&& run[j].fact == Some(value)
    &&& forall|k: int| j <= k < run.len() ==> ((#[trigger] run[k]).fact matches Some(w) ==> w == value)
}

proof fn lemma_candidate_held(s: SettleView, run: Seq<Happening>)
    requires
        s.pending is None,
    ensures
        after(s, run).quiet == s.quiet,
        after(s, run).pending matches Some(p) ==> exists|j: int| #[trigger]
            held_since(run, j, p.0) && run[j].at + s.quiet == p.1,
    decreases run.len(),
{
    if run.len() > 0 {
        let before = run.drop_last();
        lemma_candidate_held(s, before);
        if let Some(p) = after(s, run).pending {
            let was = after(s, before);
            if was.pending == Some(p) {
                let j = choose|j: int| #[trigger] held_since(before, j, p.0) && before[j].at + s.quiet == p.1;
                assert(run[j] == before[j]);
                assert forall|k: int| j <= k < run.len() implies ((#[trigger] run[k]).fact matches Some(w) ==> w
                    == p.0) by {
                    if k < before.len() {
                        assert(before[k] == run[k]);
                    }
                }
                assert(held_since(run, j, p.0));
            } else {
                assert(held_since(run, run.len() - 1, p.0));
            }
        }
    }
}

/// A value is only emitted once it has held for the quiet period: it was
/// observed at least that long ago, and nothing else was observed since.
pub proof fn emits_only_what_held_for_the_quiet_period(s: SettleView, run: Seq<Happening>, timer: Happening)
    requires
        s.pending is None,
    ensures
        emission(after(s, run), timer) matches Some(value) ==> exists|j: int| #[trigger]
            held_since(run, j, value) && run[j].at + s.quiet <= timer.at,
{
    lemma_candidate_held(s, run);
    if let Some(value) = emission(after(s, run), timer) {
        let p = after(s, run).pending->0;
        let j = choose|j: int| #[trigger] held_since(run, j, p.0) && run[j].at + s.quiet == p.1;
        assert(held_since(run, j, value));
    }
}

/// A candidate that keeps being reported is not put off: repeated facts and
/// early timers leave its deadline alone, and the first timer from then on
/// emits it.
pub proof fn steady_focus_settles(s: SettleView, value: Option<ActiveWindowView>, deadline: int, run: Seq<
    Happening,
>, timer: Happening)
    requires
        s.wf(),
        s.pending == Some((value, deadline)),
        forall|k: int|
            0 <= k < run.len() ==> ((#[trigger] run[k]).fact == Some(value) || run[k].fact is None && run[k].at
                < deadline),
        timer.fact is None,
        timer.at >= deadline,
    ensures
        after(s, run) == s,
        emissions(s, run).len() == 0,
        emission(after(s, run), timer) == Some(value),
    decreases run.len(),
{
    if run.len() > 0 {
        let before = run.drop_last();
        assert forall|k: int| 0 <= k < before.len() implies ((#[trigger] before[k]).fact == Some(value)
            || before[k].fact is None && before[k].at < deadline) by {
            assert(before[k] == run[k]);
        }
        steady_focus_settles(s, value, deadline, before, timer);
        assert(run[run.len() - 1] == run.last());
    }
}

/// Going back to the settled value before the quiet period is over leaves no
/// trace: nothing waits any more, and no timer emits anything.
pub proof fn returning_focus_is_not_reported(s: SettleView, value: Option<ActiveWindowView>, now: int, back: int, timer: int)
    requires
        s.wf(),
        s.pending is None,
        value != s.emitted,
    ensures
        ({
            let left = s.observed(value, now).0;
            let again = left.observed(s.emitted, back);
            &&& left.pending == Some((value, now + s.quiet))
            &&& left.emitted == s.emitted
            &&& again.0 == s
            &&& again.1 is Nothing
            &&& again.0.ticked(timer).1 is Nothing
        }),
{
}

/// The timer that news asks for is the one that emits it: not a moment before
/// the quiet period is over, and once then.
pub proof fn armed_timers_emit(s: SettleView, value: Option<ActiveWindowView>, now: int, early: int)
    requires
        s.wf(),
        s.is_news(value),
        early < now + s.quiet,
    ensures
        ({
            let (t, action) = s.observed(value, now);
            &&& action == ActionView::ArmTimer(now + s.quiet)
            &&& t.ticked(early) == (t, ActionView::ArmTimer(now + s.quiet))
            &&& t.ticked(now + s.quiet).1 == ActionView::Emit(value)
            &&& t.ticked(now + s.quiet).0.emitted == value
            &&& t.ticked(now + s.quiet).0.pending is None
            &&& t.ticked(now + s.quiet).0.quiet == s.quiet
        }),
{
}

/// A quiet period that is given in milliseconds is a million times as many
/// nanoseconds; nothing is settled or waits at first.
pub proof fn quiet_period_is_in_milliseconds(settle_ms: u64, s: Settle)
    requires
        call_ensures(Settle::new, (settle_ms,), s),
    ensures
        s@.quiet == 1_000_000 * settle_ms,
        s@.emitted is None,
        s@.pending is None,
{
}

} // verus!
