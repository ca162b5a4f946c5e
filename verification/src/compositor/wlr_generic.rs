//! Portable active-window tracking over `zwlr_foreign_toplevel_management_v1`.
//! Tracks which toplevel currently holds the `activated` state and reports
//! it as `ActiveWindow { pid: None, app_id, title }` (foreign-toplevel has
//! no pid).

use std::collections::HashMap;

use vstd::prelude::*;

use crate::proto::clone_window;
use crate::proto::same_window;
use crate::proto::ActiveWindow;
use crate::proto::ActiveWindowView;
use crate::strings::opt_clone;

verus! {

broadcast use vstd::std_specs::hash::group_hash_axioms;

/// wl_array of u32 state values; `activated` is value 2 (per the protocol).
pub const STATE_ACTIVATED: u8 = 2;

#[derive(Debug)]
pub struct Toplevel {
    pub app_id: Option<String>,
    pub title: Option<String>,
    /// Committed on the last `done`.
    pub activated: bool,
    // Staged between `done` events.
    pub pending_app_id: Option<String>,
    pub pending_title: Option<String>,
    pub pending_activated: bool,
}

/// What a `Toplevel` says.
#[verifier::ext_equal]
pub struct ToplevelView {
    pub app_id: Option<Seq<char>>,
    pub title: Option<Seq<char>>,
    pub activated: bool,
    pub pending_app_id: Option<Seq<char>>,
    pub pending_title: Option<Seq<char>>,
    pub pending_activated: bool,
}

impl View for Toplevel {
    type V = ToplevelView;

    open spec fn view(&self) -> ToplevelView {
        ToplevelView {
            app_id: crate::strings::text_of(self.app_id),
            title: crate::strings::text_of(self.title),
            activated: self.activated,
            pending_app_id: crate::strings::text_of(self.pending_app_id),
            pending_title: crate::strings::text_of(self.pending_title),
            pending_activated: self.pending_activated,
        }
    }
}

/// A toplevel about which nothing is known yet.
pub open spec fn blank_toplevel() -> ToplevelView {
    ToplevelView {
        app_id: None,
        title: None,
        activated: false,
        pending_app_id: None,
        pending_title: None,
        pending_activated: false,
    }
}

impl ToplevelView {
    /// How the toplevel is reported.
    pub open spec fn window(self) -> ActiveWindowView {
        ActiveWindowView { pid: None, address: None, app_id: self.app_id, title: self.title }
    }

    /// What was staged takes effect; labels that were not are kept.
    pub open spec fn committed(self) -> ToplevelView {
        ToplevelView {
            app_id: if self.pending_app_id is Some {
                self.pending_app_id
            } else {
                self.app_id
            },
            title: if self.pending_title is Some {
                self.pending_title
            } else {
                self.title
            },
            activated: self.pending_activated,
            pending_app_id: None,
            pending_title: None,
            pending_activated: self.pending_activated,
        }
    }
}

impl Default for Toplevel {
    fn default() -> (t: Self)
        ensures
            t@ == blank_toplevel(),
    {
        Toplevel {
            app_id: None,
            title: None,
            activated: false,
            pending_app_id: None,
            pending_title: None,
            pending_activated: false,
        }
    }
}

/// What the compositor says of a toplevel.
#[derive(Debug)]
pub enum ToplevelEvent {
    Title(String),
    AppId(String),
    /// The raw state array.
    State(Vec<u8>),
    Done,
    Closed,
}

/// What a `ToplevelEvent` says.
pub enum ToplevelEventView {
    Title(Seq<char>),
    AppId(Seq<char>),
    State(Seq<u8>),
    Done,
    Closed,
}

impl View for ToplevelEvent {
    type V = ToplevelEventView;

    open spec fn view(&self) -> ToplevelEventView {
        match self {
            ToplevelEvent::Title(s) => ToplevelEventView::Title(s@),
            ToplevelEvent::AppId(s) => ToplevelEventView::AppId(s@),
            ToplevelEvent::State(v) => ToplevelEventView::State(v@),
            ToplevelEvent::Done => ToplevelEventView::Done,
            ToplevelEvent::Closed => ToplevelEventView::Closed,
        }
    }
}

/// The `k`-th state value, in the machine's byte order, is `activated`.
pub open spec fn activated_at(state: Seq<u8>, big_endian: bool, k: int) -> bool {
    &&& 0 <= k
    &&& 4 * k + 4 <= state.len()
    &&& if big_endian {
        state[4 * k] == 0 && state[4 * k + 1] == 0 && state[4 * k + 2] == 0 && state[4 * k + 3] == STATE_ACTIVATED
    } else {
        state[4 * k] == STATE_ACTIVATED && state[4 * k + 1] == 0 && state[4 * k + 2] == 0 && state[4 * k + 3] == 0
    }
}

/// Some value of a raw state array is `activated`.
pub open spec fn has_activated(state: Seq<u8>, big_endian: bool) -> bool {
    exists|k: int| activated_at(state, big_endian, k)
}

/// Whether a raw state array holds `activated`. `big_endian` is the machine's
/// byte order, in which the array's values come.
pub fn state_activated(state: &[u8], big_endian: bool) -> (yes: bool)
    ensures
        yes == has_activated(state@, big_endian),
{
    let n: usize = state.len();
    let mut i: usize = 0;
    let ghost mut k = 0int;
    while n - i >= 4
        invariant
            i <= n == state@.len(),
            i == 4 * k,
            0 <= k,
            forall|j: int| 0 <= j < k ==> !activated_at(state@, big_endian, j),
        decreases n - i,
    {
        let hit: bool = if big_endian {
            state[i] == 0 && state[i + 1] == 0 && state[i + 2] == 0 && state[i + 3] == STATE_ACTIVATED
        } else {
            state[i] == STATE_ACTIVATED && state[i + 1] == 0 && state[i + 2] == 0 && state[i + 3] == 0
        };
        assert(hit == activated_at(state@, big_endian, k));
        if hit {
            return true;
        }
        i += 4;
        proof {
            k = k + 1;
        }
    }
    assert forall|j: int| !activated_at(state@, big_endian, j) by {
        if activated_at(state@, big_endian, j) {
            assert(j < k);
        }
    }
    false
}

/// The toplevels by id.
pub open spec fn toplevels_view(m: Map<u32, Toplevel>) -> Map<u32, ToplevelView> {
    m.map_values(|t: Toplevel| t@)
}

/// `fact` says which toplevel is active: one that is activated, or none where
/// none is.
pub open spec fn is_active_fact(m: Map<u32, ToplevelView>, fact: Option<ActiveWindowView>) -> bool {
    match fact {
        Some(w) => exists|id: u32| #[trigger] m.dom().contains(id) && m[id].activated && m[id].window() == w,
        None => forall|id: u32| #[trigger] m.dom().contains(id) ==> !m[id].activated,
    }
}

/// What an optional fact says.
pub open spec fn fact_view(fact: Option<Option<ActiveWindow>>) -> Option<Option<ActiveWindowView>> {
    match fact {
        Some(f) => Some(crate::proto::window_view(f)),
        None => None,
    }
}

/// Per-toplevel tracking. Empty/inert unless the compositor has the protocol.
#[derive(Debug)]
pub struct Wlr {
    pub toplevels: HashMap<u32, Toplevel>,
    /// Last fact sent (dedup key - also covers a title change on the
    /// still-focused window).
    pub last_emitted: Option<Option<ActiveWindow>>,
}

impl Default for Wlr {
    fn default() -> (wlr: Self)
        ensures
            wlr.tops() == Map::<u32, ToplevelView>::empty(),
            wlr.last_emitted is None,
    {
        let wlr = Wlr { toplevels: HashMap::new(), last_emitted: None };
        assert(wlr.tops() =~= Map::<u32, ToplevelView>::empty());
        wlr
    }
}

impl Wlr {
    pub open spec fn tops(&self) -> Map<u32, ToplevelView> {
        toplevels_view(self.toplevels@)
    }

    pub open spec fn last(&self) -> Option<Option<ActiveWindowView>> {
        fact_view(self.last_emitted)
    }

    /// The toplevels after an event on one of them.
    pub open spec fn updated(&self, id: u32, event: ToplevelEventView, big_endian: bool) -> Map<u32, ToplevelView> {
        let m = self.tops();
        if !m.dom().contains(id) {
            m
        } else {
            match event {
                ToplevelEventView::Title(s) => m.insert(id, ToplevelView { pending_title: Some(s), ..m[id] }),
                ToplevelEventView::AppId(s) => m.insert(id, ToplevelView { pending_app_id: Some(s), ..m[id] }),
                ToplevelEventView::State(v) => m.insert(
                    id,
                    ToplevelView { pending_activated: has_activated(v, big_endian), ..m[id] },
                ),
                ToplevelEventView::Done => m.insert(id, m[id].committed()),
                ToplevelEventView::Closed => m.remove(id),
            }
        }
    }

    /// `sent` is what is reported once the toplevels are `m`: a fact about
    /// them, unless the last report was that fact already.
    pub open spec fn reports(
        before: Option<Option<ActiveWindowView>>,
        m: Map<u32, ToplevelView>,
        sent: Option<Option<ActiveWindowView>>,
        after: Option<Option<ActiveWindowView>>,
    ) -> bool {
        exists|fact: Option<ActiveWindowView>| #[trigger]
            is_active_fact(m, fact) && after == Some(fact) && sent == if before == Some(fact) {
                None
            } else {
                Some(fact)
            }
    }

    fn window(t: &Toplevel) -> (w: ActiveWindow)
        ensures
            w@ == t@.window(),
    {
        ActiveWindow { pid: None, address: None, app_id: opt_clone(&t.app_id), title: opt_clone(&t.title) }
    }

    /// The active toplevel, if any. Where several are activated at once, one
    /// of them.
    pub fn active(&self) -> (fact: Option<ActiveWindow>)
        ensures
            is_active_fact(self.tops(), crate::proto::window_view(fact)),
    {
        let ghost m = self.toplevels@;
        for t in it: self.toplevels.values()
            invariant
                m == self.toplevels@,
                it.seq().unref().to_set() == m.values(),
                forall|k: int| 0 <= k < it.index() ==> !(#[trigger] it.seq()[k]).activated,
        {
            if t.activated {
                let w: ActiveWindow = Self::window(t);
                proof {
                    assert(it.seq().unref()[it.index() as int] == *t);
                    assert(it.seq().unref().to_set().contains(*t));
                    assert(m.values().contains(*t));
                    let id = choose|id: u32| #[trigger] m.dom().contains(id) && m[id] == *t;
                    assert(self.tops().dom().contains(id));
                }
                return Some(w);
            }
        }
        assert forall|id: u32| #[trigger] self.tops().dom().contains(id) implies !self.tops()[id].activated by {
            assert(m.values().contains(m[id]));
        }
        None
    }

    /// Report a fact unless it is the last one that was reported. A title
    /// change on the still-focused window is a real change and is reported.
    pub fn report(&mut self, fact: Option<ActiveWindow>) -> (sent: Option<Option<ActiveWindow>>)
        ensures
            final(self).toplevels@ == old(self).toplevels@,
            final(self).last() == Some(crate::proto::window_view(fact)),
            fact_view(sent) == if old(self).last() == Some(crate::proto::window_view(fact)) {
                None
            } else {
                Some(crate::proto::window_view(fact))
            },
    {
        let same: bool = match &self.last_emitted {
            Some(last) => same_window(last, &fact),
            None => false,
        };
        if same {
            return None;
        }
        self.last_emitted = Some(clone_window(&fact));
        Some(fact)
    }

    /// Recompute the active toplevel after a `done`/`closed` and return the
    /// fact to send when it - or the focused window's labels - changed.
    pub fn reconcile(&mut self) -> (sent: Option<Option<ActiveWindow>>)
        ensures
            final(self).tops() == old(self).tops(),
            Wlr::reports(old(self).last(), old(self).tops(), fact_view(sent), final(self).last()),
    {
        let fact: Option<ActiveWindow> = self.active();
        let ghost f = crate::proto::window_view(fact);
        let sent: Option<Option<ActiveWindow>> = self.report(fact);
        assert(is_active_fact(old(self).tops(), f));
        sent
    }

    /// A new toplevel is announced.
    pub fn on_toplevel(&mut self, id: u32)
        ensures
            final(self).tops() == old(self).tops().insert(id, blank_toplevel()),
            final(self).last() == old(self).last(),
    {
        self.toplevels.insert(id, Toplevel::default());
        assert(self.tops() =~= old(self).tops().insert(id, blank_toplevel()));
    }

    /// The compositor stopped advertising the protocol.
    pub fn on_finished(&mut self) -> (sent: Option<Option<ActiveWindow>>)
        ensures
            final(self).tops() == Map::<u32, ToplevelView>::empty(),
            Wlr::reports(old(self).last(), Map::empty(), fact_view(sent), final(self).last()),
    {
        self.toplevels.clear();
        assert(self.tops() =~= Map::<u32, ToplevelView>::empty());
        self.reconcile()
    }

    /// An event on one toplevel. Labels and state are staged until `done`;
    /// `done` and `closed` return the fact to send, if it changed.
    pub fn on_event(&mut self, id: u32, event: ToplevelEvent, big_endian: bool) -> (sent: Option<Option<ActiveWindow>>)
        ensures
            final(self).tops() == old(self).updated(id, event@, big_endian),
            match event@ {
                ToplevelEventView::Done | ToplevelEventView::Closed => Wlr::reports(
                    old(self).last(),
                    old(self).updated(id, event@, big_endian),
                    fact_view(sent),
                    final(self).last(),
                ),
                _ => sent is None && final(self).last() == old(self).last(),
            },
    {
        let ghost ev = event@;
        let taken: Option<Toplevel> = self.toplevels.remove(&id);
        let mut settled: bool = false;
        if let Some(mut t) = taken {
            let ghost was = t@;
            assert(old(self).tops().dom().contains(id) && old(self).tops()[id] == was);
            let mut open: bool = true;
            match event {
                ToplevelEvent::Title(title) => {
                    let ghost text = title@;
                    t.pending_title = Some(title);
                    assert(t@ == ToplevelView { pending_title: Some(text), ..was });
                },
                ToplevelEvent::AppId(app_id) => {
                    let ghost text = app_id@;
                    t.pending_app_id = Some(app_id);
                    assert(t@ == ToplevelView { pending_app_id: Some(text), ..was });
                },
                ToplevelEvent::State(state) => {
                    t.pending_activated = state_activated(state.as_slice(), big_endian);
                    assert(t@ == ToplevelView { pending_activated: t.pending_activated, ..was });
                },
                ToplevelEvent::Done => {
                    if let Some(a) = t.pending_app_id.take() {
                        t.app_id = Some(a);
                    }
                    if let Some(title) = t.pending_title.take() {
                        t.title = Some(title);
                    }
                    t.activated = t.pending_activated;
                    assert(t@ == was.committed());
                    settled = true;
                },
                ToplevelEvent::Closed => {
                    open = false;
                    settled = true;
                },
            }
            if open {
                let ghost now = t@;
                self.toplevels.insert(id, t);
                assert(self.tops() =~= old(self).tops().insert(id, now));
            } else {
                assert(self.tops() =~= old(self).tops().remove(id));
            }
        } else {
            assert(self.tops() =~= old(self).tops());
            match event {
                ToplevelEvent::Done | ToplevelEvent::Closed => {
                    settled = true;
                },
                _ => {},
            }
        }
        assert(self.tops() == old(self).updated(id, ev, big_endian));
        if settled {
            self.reconcile()
        } else {
            None
        }
    }
}

/// With a single activated toplevel, that one is reported, and nothing is
/// reported again until it or its labels change.
pub proof fn single_active_toplevel_is_reported_once(
    before: Option<Option<ActiveWindowView>>,
    m: Map<u32, ToplevelView>,
    id: u32,
    sent: Option<Option<ActiveWindowView>>,
    after: Option<Option<ActiveWindowView>>,
    again: Option<Option<ActiveWindowView>>,
    last: Option<Option<ActiveWindowView>>,
)
    requires
        m.dom().contains(id),
        m[id].activated,
        forall|other: u32| #[trigger] m.dom().contains(other) && m[other].activated ==> other == id,
        Wlr::reports(before, m, sent, after),
        Wlr::reports(after, m, again, last),
    ensures
        after == Some(Some(m[id].window())),
        sent == if before == Some(Some(m[id].window())) {
            None
        } else {
            Some(Some(m[id].window()))
        },
        again is None,
        last == after,
{
}

/// The `k`-th value of a raw state array is worth `n`, in the machine's byte
/// order.
pub open spec fn state_value(state: Seq<u8>, big_endian: bool, k: int, n: int) -> bool {
    &&& 0 <= 4 * k
    &&& 4 * k + 4 <= state.len()
    &&& n == if big_endian {
        ((state[4 * k] * 256 + state[4 * k + 1]) * 256 + state[4 * k + 2]) * 256 + state[4 * k + 3]
    } else {
        ((state[4 * k + 3] * 256 + state[4 * k + 2]) * 256 + state[4 * k + 1]) * 256 + state[4 * k]
    }
}

/// A raw state array is an array of 32-bit values, and says `activated` exactly
/// if one of them is 2.
pub proof fn activated_is_the_value_two(state: &[u8], big_endian: bool, yes: bool)
    requires
        call_ensures(state_activated, (state, big_endian), yes),
    ensures
        yes <==> exists|k: int| state_value(state@, big_endian, k, 2),
{
    lemma_activated(state@, big_endian);
}

proof fn lemma_activated(state: Seq<u8>, big_endian: bool)
    ensures
        has_activated(state, big_endian) <==> exists|k: int| state_value(state, big_endian, k, 2),
{
    if has_activated(state, big_endian) {
        let k = choose|k: int| activated_at(state, big_endian, k);
        assert(state_value(state, big_endian, k, 2));
    }
    if exists|k: int| state_value(state, big_endian, k, 2) {
        let k = choose|k: int| state_value(state, big_endian, k, 2);
        assert(activated_at(state, big_endian, k));
    }
}

/// A toplevel is active exactly if the last state that it was given says so,
/// whatever it was before: after a state and the `done` that follows, no other
/// toplevel having changed, it counts as activated if and only if the state
/// holds the value.
pub proof fn last_state_decides(a: Wlr, b: Wlr, c: Wlr, id: u32, state: Seq<u8>, big_endian: bool, other: u32)
    requires
        a.tops().dom().contains(id),
        b.tops() == a.updated(id, ToplevelEventView::State(state), big_endian),
        c.tops() == b.updated(id, ToplevelEventView::Done, big_endian),
        other != id,
    ensures
        c.tops().dom() == a.tops().dom(),
        b.tops()[id].activated == a.tops()[id].activated,
        c.tops()[id].activated <==> exists|k: int| state_value(state, big_endian, k, 2),
        c.tops()[other] == a.tops()[other],
{
    lemma_activated(state, big_endian);
    assert(c.tops().dom() =~= a.tops().dom());
}

/// Losing the focus is reported: once the only active toplevel is given a state
/// without `activated`, the fact is that nothing is active, and it is sent
/// unless it was the last.
pub proof fn lost_focus_is_reported(
    a: Wlr,
    b: Wlr,
    c: Wlr,
    id: u32,
    state: Seq<u8>,
    big_endian: bool,
    sent: Option<Option<ActiveWindowView>>,
)
    requires
        a.tops().dom().contains(id),
        forall|other: u32| #[trigger] a.tops().dom().contains(other) && other != id ==> !a.tops()[other].activated,
        forall|k: int| !state_value(state, big_endian, k, 2),
        b.tops() == a.updated(id, ToplevelEventView::State(state), big_endian),
        c.tops() == b.updated(id, ToplevelEventView::Done, big_endian),
        Wlr::reports(b.last(), c.tops(), sent, c.last()),
    ensures
        c.last() == Some(None::<ActiveWindowView>),
        sent == if b.last() == Some(None::<ActiveWindowView>) {
            None
        } else {
            Some(None::<ActiveWindowView>)
        },
{
    lemma_activated(state, big_endian);
    assert forall|other: u32| #[trigger] c.tops().dom().contains(other) implies !c.tops()[other].activated by {
        assert(a.tops().dom().contains(other));
    }
}

/// A gained focus is reported under the window's own labels: the last that it
/// was given before the `done`, or those that it had.
pub proof fn gained_focus_is_reported(
    a: Wlr,
    b: Wlr,
    c: Wlr,
    id: u32,
    state: Seq<u8>,
    big_endian: bool,
    sent: Option<Option<ActiveWindowView>>,
)
    requires
        a.tops().dom().contains(id),
        forall|other: u32| #[trigger] a.tops().dom().contains(other) && other != id ==> !a.tops()[other].activated,
        exists|k: int| state_value(state, big_endian, k, 2),
        b.tops() == a.updated(id, ToplevelEventView::State(state), big_endian),
        c.tops() == b.updated(id, ToplevelEventView::Done, big_endian),
        Wlr::reports(b.last(), c.tops(), sent, c.last()),
    ensures
        c.last() matches Some(Some(w)) && {
            let t = a.tops()[id];
            &&& w.pid is None
            &&& w.address is None
            &&& t.pending_app_id is Some ==> w.app_id == t.pending_app_id
            &&& t.pending_app_id is None ==> w.app_id == t.app_id
            &&& t.pending_title is Some ==> w.title == t.pending_title
            &&& t.pending_title is None ==> w.title == t.title
        },
        sent is None <==> c.last() == b.last(),
        sent is Some ==> sent == c.last(),
{
    lemma_activated(state, big_endian);
    let m = c.tops();
    let fact = choose|fact: Option<ActiveWindowView>| #[trigger]
        is_active_fact(m, fact) && c.last() == Some(fact) && sent == if b.last() == Some(fact) {
            None
        } else {
            Some(fact)
        };
    assert(m.dom().contains(id) && m[id].activated);
    assert forall|other: u32| #[trigger] m.dom().contains(other) && other != id implies !m[other].activated by {
        assert(a.tops().dom().contains(other));
    }
}

/// Labels take effect with the next `done` and no sooner: a title or an id is
/// set aside, shown by nothing, and is the toplevel's own afterwards.
pub proof fn labels_wait_for_done(
    a: Wlr,
    b: Wlr,
    c: Wlr,
    d: Wlr,
    id: u32,
    title: Seq<char>,
    app_id: Seq<char>,
    big_endian: bool,
)
    requires
        a.tops().dom().contains(id),
        b.tops() == a.updated(id, ToplevelEventView::Title(title), big_endian),
        c.tops() == b.updated(id, ToplevelEventView::AppId(app_id), big_endian),
        d.tops() == c.updated(id, ToplevelEventView::Done, big_endian),
    ensures
        b.tops()[id].title == a.tops()[id].title,
        c.tops()[id].app_id == a.tops()[id].app_id,
        c.tops()[id].title == a.tops()[id].title,
        d.tops()[id].title == Some(title),
        d.tops()[id].app_id == Some(app_id),
        d.tops()[id].pending_title is None,
        d.tops()[id].pending_app_id is None,
        d.tops()[id].activated == a.tops()[id].pending_activated,
{
}

/// A closed toplevel is gone and the others stay as they are; events on one that
/// was never announced change nothing.
pub proof fn closed_toplevels_are_gone(a: Wlr, b: Wlr, id: u32, event: ToplevelEventView, big_endian: bool, other: u32)
    requires
        b.tops() == a.updated(id, event, big_endian),
    ensures
        event is Closed ==> !b.tops().dom().contains(id),
        other != id ==> b.tops().dom().contains(other) == a.tops().dom().contains(other),
        other != id ==> b.tops()[other] == a.tops()[other],
        !a.tops().dom().contains(id) ==> b.tops() == a.tops(),
        !(event is Closed) ==> b.tops().dom().contains(id) == a.tops().dom().contains(id),
{
}

} // verus!
