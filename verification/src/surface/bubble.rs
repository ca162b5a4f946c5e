//! Alert speech bubble: what to say (from the snapshot), the typewriter
//! reveal, and where the bubble anchors on the surface canvas.

use vstd::prelude::*;

use crate::proto::AgentState;
use crate::proto::SessionKey;
use crate::proto::SessionKeyView;
use crate::proto::SessionView;
use crate::proto::Snapshot;
use crate::strings::chars_of;
use crate::strings::str_eq;
use crate::strings::trim;

verus! {

/// Logical geometry (multiplied by the buffer scale when drawing).
pub const MAX_WIDTH: u32 = 280;

pub const PAD: u32 = 10;

pub const LINE_PX: u32 = 18;

pub const TRI_W: u32 = 14;

/// Gap between the bubble's box edge and the sprite's *visible* content;
/// the tail triangle spans it, its tip stopping 1px shy of the sprite.
pub const BOX_GAP: u32 = 8;

pub const MAX_BODY_LINES: usize = 3;

pub const MS_PER_CHAR: u64 = 30;

/// Redraw grid for the reveal: characters appear in small bursts instead of
/// one frame per character, so a typing bubble can't pin the render loop at
/// 1000/MS_PER_CHAR fps (expensive when the surface straddles a GPU seam).
pub const TYPE_TICK_MS: u64 = 90;

/// Logical height of the bubble zone: label line, body lines, padding, gap.
pub open spec fn zone() -> int {
    PAD * 2 + LINE_PX * (1 + MAX_BODY_LINES) + BOX_GAP
}

/// Fixed logical height reserved above/below the mascot for the bubble
/// (label line + max body lines + padding + sprite gap).
pub fn zone_height() -> (h: u32)
    ensures
        h == zone(),
{
    PAD * 2 + LINE_PX * (1 + MAX_BODY_LINES as u32) + BOX_GAP
}

/// What identifies an alert: whose it is and what it says.
#[verifier::ext_equal]
pub struct Content {
    pub key: SessionKeyView,
    pub label: Seq<char>,
    pub body: Seq<char>,
}

#[derive(Debug, PartialEq, Eq)]
pub struct Bubble {
    pub key: SessionKey,
    pub label: &'static str,
    pub body: String,
    pub started_ms: u64,
    pub chars_total: usize,
}

/// Time since `started`, zero before it.
pub open spec fn elapsed(started: u64, now_ms: u64) -> int {
    crate::ints::max_of(now_ms - started, 0)
}

/// Characters revealed of `total`, typing since `started`.
pub open spec fn revealed(started: u64, total: int, now_ms: u64) -> int {
    crate::ints::min_of(elapsed(started, now_ms) / (MS_PER_CHAR as int), total)
}

/// The next point of the redraw grid after `now_ms`.
pub open spec fn next_tick(started: u64, now_ms: u64) -> int {
    started + (elapsed(started, now_ms) / (TYPE_TICK_MS as int) + 1) * TYPE_TICK_MS
}

impl Bubble {
    pub open spec fn content(&self) -> Content {
        Content { key: self.key@, label: self.label@, body: self.body@ }
    }

    /// The character count is that of the body.
    pub open spec fn wf(&self) -> bool {
        self.chars_total == self.body@.len()
    }

    pub fn new(key: SessionKey, label: &'static str, body: String, now_ms: u64) -> (bubble: Self)
        ensures
            bubble.wf(),
            bubble.content() == (Content { key: key@, label: label@, body: body@ }),
            bubble.started_ms == now_ms,
    {
        let chars: Vec<char> = chars_of(body.as_str());
        let chars_total: usize = chars.len();
        Bubble { key, label, body, started_ms: now_ms, chars_total }
    }

    pub fn visible_chars(&self, now_ms: u64) -> (n: usize)
        ensures
            n == revealed(self.started_ms, self.chars_total as int, now_ms),
    {
        let due: u64 = now_ms.saturating_sub(self.started_ms) / MS_PER_CHAR;
        if due >= self.chars_total as u64 {
            self.chars_total
        } else {
            due as usize
        }
    }

    /// Byte offset into `body` for the reveal cutoff.
    pub fn visible_bytes(&self, now_ms: u64) -> (n: usize)
        ensures
            n == vstd::utf8::encode_utf8(
                self.body@.take(
                    crate::ints::min_of(
                        revealed(self.started_ms, self.chars_total as int, now_ms),
                        self.body@.len() as int,
                    ),
                ),
            ).len(),
    {
        let chars: usize = self.visible_chars(now_ms);
        let all: Vec<char> = chars_of(self.body.as_str());
        let n: usize = if chars < all.len() {
            chars
        } else {
            all.len()
        };
        let prefix: &str = self.body.as_str().substring_char(0, n);
        assert(prefix@ =~= self.body@.take(n as int));
        prefix.as_bytes().len()
    }

    /// When the next reveal redraw lands; None once fully revealed. Reveal
    /// pace is still MS_PER_CHAR, but deadlines land on the TYPE_TICK_MS
    /// grid, so each frame shows the few characters that became due.
    pub fn typing_deadline_ms(&self, now_ms: u64) -> (at: Option<u64>)
        requires
            revealed(self.started_ms, self.chars_total as int, now_ms) < self.chars_total ==> next_tick(
                self.started_ms,
                now_ms,
            ) <= u64::MAX,
        ensures
            match at {
                None => revealed(self.started_ms, self.chars_total as int, now_ms) == self.chars_total,
                Some(t) => {
                    &&& revealed(self.started_ms, self.chars_total as int, now_ms) < self.chars_total
                    &&& t == next_tick(self.started_ms, now_ms)
                },
            },
    {
        if self.visible_chars(now_ms) >= self.chars_total {
            return None;
        }
        let elapsed: u64 = now_ms.saturating_sub(self.started_ms);
        Some(self.started_ms + (elapsed / TYPE_TICK_MS + 1) * TYPE_TICK_MS)
    }
}

/// The reveal never goes back, starts at nothing, and is complete after
/// `MS_PER_CHAR` for each character.
pub proof fn reveal_is_monotone(started: u64, total: int, now: u64, later: u64)
    requires
        0 <= total,
        now <= later,
    ensures
        0 <= revealed(started, total, now) <= revealed(started, total, later) <= total,
        now <= started ==> revealed(started, total, now) == 0,
        now >= started + total * MS_PER_CHAR ==> revealed(started, total, now) == total,
{
    let a = elapsed(started, now);
    let b = elapsed(started, later);
    assert(a / 30 <= b / 30);
    if now >= started + total * MS_PER_CHAR {
        assert(a >= total * 30);
        assert(a / 30 >= total);
    }
}

/// Every redraw deadline lies ahead by at most one grid step, on the grid, and
/// shows characters that were not shown before.
pub proof fn each_redraw_reveals_more(started: u64, total: int, now: u64, tick: u64)
    requires
        0 <= total,
        revealed(started, total, now) < total,
        tick == next_tick(started, now),
    ensures
        tick > now,
        now >= started ==> tick <= now + TYPE_TICK_MS,
        (tick - started) % (TYPE_TICK_MS as int) == 0,
        revealed(started, total, tick) > revealed(started, total, now),
{
    let e = elapsed(started, now);
    let q = e / 90;
    assert((q + 1) * TYPE_TICK_MS == (q + 1) * 90);
    assert(elapsed(started, tick) == (q + 1) * 90);
    assert(((q + 1) * 90) % 90 == 0);
    assert(((q + 1) * 90) / 30 == (q + 1) * 3);
    assert(e / 30 < (q + 1) * 3);
}

/// Where the first session in `state` stands.
pub open spec fn first_in_state(sessions: Seq<SessionView>, state: AgentState, i: int) -> bool {
    &&& 0 <= i < sessions.len()
    &&& sessions[i].state == state
    &&& forall|k: int| 0 <= k < i ==> (#[trigger] sessions[k]).state != state
}

/// States that call for the user.
pub open spec fn is_alert(state: AgentState) -> bool {
    state == AgentState::Waiting || state == AgentState::Failed || state == AgentState::Ready
}

/// `content` is what the bubble should say for this snapshot: the body of the
/// first session in the top state, where that is an alert state and the body
/// is not blank.
pub open spec fn is_alert_content(snapshot: Snapshot, content: Content) -> bool {
    &&& is_alert(snapshot.top)
    &&& exists|i: int| #[trigger]
        first_in_state(snapshot.sessions@, snapshot.top, i) && {
            let s = snapshot.sessions@[i];
            &&& s.body matches Some(b)
            &&& crate::strings::trimmed(b@).len() > 0
            &&& content == (Content { key: s.key@, label: crate::proto::label_of(snapshot.top), body: b@ })
        }
}

/// What the bubble should say for this snapshot, if anything.
pub open spec fn alert_content(snapshot: Snapshot) -> Option<Content> {
    if exists|c: Content| is_alert_content(snapshot, c) {
        Some(choose|c: Content| is_alert_content(snapshot, c))
    } else {
        None
    }
}

proof fn lemma_one_alert(snapshot: Snapshot, a: Content, b: Content)
    requires
        is_alert_content(snapshot, a),
        is_alert_content(snapshot, b),
    ensures
        a == b,
{
    let s = snapshot.sessions@;
    let i = choose|i: int| #[trigger]
        first_in_state(s, snapshot.top, i) && s[i].body is Some && a == (Content {
            key: s[i].key@,
            label: crate::proto::label_of(snapshot.top),
            body: s[i].body->0@,
        });
    let j = choose|j: int| #[trigger]
        first_in_state(s, snapshot.top, j) && s[j].body is Some && b == (Content {
            key: s[j].key@,
            label: crate::proto::label_of(snapshot.top),
            body: s[j].body->0@,
        });
    if i < j {
        assert(s[i].state != snapshot.top);
    }
    if j < i {
        assert(s[j].state != snapshot.top);
    }
}

/// What the bubble should say for this snapshot: alert states only
/// (needs-input / blocked / unseen-ready - `top` is already the priority
/// reduce), and only when the top session carries a body.
pub fn alert_for(snapshot: &Snapshot) -> (alert: Option<(SessionKey, &'static str, &str)>)
    ensures
        match alert {
            Some((key, label, body)) => {
                let c = Content { key: key@, label: label@, body: body@ };
                is_alert_content(*snapshot, c) && alert_content(*snapshot) == Some(c)
            },
            None => alert_content(*snapshot) is None && forall|c: Content| !is_alert_content(*snapshot, c),
        },
{
    match snapshot.top {
        AgentState::Waiting | AgentState::Failed | AgentState::Ready => {},
        _ => {
            return None;
        },
    }
    let mut i: usize = 0;
    while i < snapshot.sessions.len()
        invariant
            i <= snapshot.sessions@.len(),
            is_alert(snapshot.top),
            forall|k: int| 0 <= k < i ==> (#[trigger] snapshot.sessions@[k]).state != snapshot.top,
        decreases snapshot.sessions@.len() - i,
    {
        if snapshot.sessions[i].state == snapshot.top {
            let session: &SessionView = &snapshot.sessions[i];
            assert(first_in_state(snapshot.sessions@, snapshot.top, i as int));
            assert(forall|j: int| #[trigger]
                first_in_state(snapshot.sessions@, snapshot.top, j) ==> j == i);
            if let Some(body) = &session.body {
                let rest: Vec<char> = chars_of(trim(body.as_str()));
                if rest.len() > 0 {
                    let label: &'static str = snapshot.top.label();
                    let key: SessionKey = session.key.clone();
                    let ghost c = Content { key: key@, label: label@, body: body@ };
                    proof {
                        assert(is_alert_content(*snapshot, c));
                        let d = choose|d: Content| is_alert_content(*snapshot, d);
                        lemma_one_alert(*snapshot, c, d);
                    }
                    return Some((key, label, body.as_str()));
                }
            }
            return None;
        }
        i += 1;
    }
    None
}

/// Alert bubble state: what is shown, a reveal memory keyed purely on the
/// content identity (session key, label, body), and an optional dismissal
/// on that same triple. Anything that leaves the triple unchanged -
/// animation track switches, snapshot heartbeats, seen-count noise,
/// transient alert clears, hide/show round-trips - keeps the typewriter's
/// progress AND any dismissal; a changed triple re-types from zero and
/// clears the dismissal.
#[derive(Debug)]
pub struct AlertBubble {
    shown: bool,
    /// Most recent reveal (content + start time), kept while hidden.
    slot: Option<Bubble>,
    /// Content triple the user optimistically dismissed by clicking. While
    /// the top alert equals this, the bubble stays collapsed even though the
    /// session is still `top` (e.g. a `waiting` alert that never changes
    /// state on click, or a focus-join miss).
    dismissed: Option<(SessionKey, &'static str, String)>,
}

/// State of the alert bubble.
pub struct AlertView {
    pub shown: bool,
    /// Content and start of the most recent reveal.
    pub slot: Option<(Content, u64)>,
    pub dismissed: Option<Content>,
}

impl AlertView {
    /// Only what is in the slot is shown or dismissed, and never both.
    pub open spec fn wf(self) -> bool {
        &&& self.shown ==> self.slot is Some
        &&& self.dismissed matches Some(d) ==> self.slot matches Some(s) && s.0 == d
        &&& self.shown ==> self.dismissed is None
    }

    /// A snapshot arrives that has `alert` to say; the flag tells whether the
    /// visible bubble changed.
    pub open spec fn applied(self, alert: Option<Content>, now: u64) -> (AlertView, bool) {
        match alert {
            None => (AlertView { shown: false, ..self }, self.shown),
            Some(c) => {
                if self.slot matches Some(s) && s.0 == c {
                    let visible = self.dismissed != Some(c);
                    (AlertView { shown: visible, ..self }, self.shown != visible)
                } else {
                    (AlertView { shown: true, slot: Some((c, now)), dismissed: None }, true)
                }
            },
        }
    }

    /// The user clicks the bubble away.
    pub open spec fn collapsed(self) -> AlertView {
        match self.slot {
            Some(s) if self.shown => AlertView { shown: false, dismissed: Some(s.0), ..self },
            _ => self,
        }
    }
}

impl View for AlertBubble {
    type V = AlertView;

    closed spec fn view(&self) -> AlertView {
        AlertView {
            shown: self.shown,
            slot: match self.slot {
                Some(b) => Some((b.content(), b.started_ms)),
                None => None,
            },
            dismissed: match self.dismissed {
                Some((key, label, body)) => Some(Content { key: key@, label: label@, body: body@ }),
                None => None,
            },
        }
    }
}

impl Default for AlertBubble {
    fn default() -> (alert: Self)
        ensures
            alert.wf(),
            alert@ == (AlertView { shown: false, slot: None, dismissed: None }),
    {
        AlertBubble { shown: false, slot: None, dismissed: None }
    }
}

impl AlertBubble {
    pub closed spec fn wf(&self) -> bool {
        &&& self@.wf()
        &&& self.slot matches Some(b) ==> b.wf()
    }

    /// Apply a snapshot. Returns true when the *visible* bubble changed
    /// (appeared, disappeared, or switched content) and a redraw is due.
    pub fn apply(&mut self, snapshot: &Snapshot, now_ms: u64) -> (changed: bool)
        requires
            old(self).wf(),
        ensures
            final(self).wf(),
            (final(self)@, changed) == old(self)@.applied(alert_content(*snapshot), now_ms),
    {
        match alert_for(snapshot) {
            Some((key, label, body)) => {
                let same_content: bool = match &self.slot {
                    Some(b) => b.key.same(&key) && str_eq(b.label, label) && str_eq(b.body.as_str(), body),
                    None => false,
                };
                if !same_content {
                    // Genuinely new/changed alert: fresh reveal, and the old
                    // dismissal no longer applies.
                    self.slot = Some(Bubble::new(key.clone(), label, body.to_owned(), now_ms));
                    self.dismissed = None;
                }
                // A dismissal only holds while the triple matches it exactly.
                let dismissed: bool = match &self.dismissed {
                    Some((dk, dl, db)) => dk.same(&key) && str_eq(dl, label) && str_eq(db.as_str(), body),
                    None => false,
                };
                let visible: bool = !dismissed;
                let changed: bool = self.shown != visible || !same_content;
                self.shown = visible;
                changed
            },
            None => {
                let changed: bool = self.shown;
                self.shown = false;
                changed
            },
        }
    }

    /// The user clicked the bubble: optimistically collapse it now and keep
    /// it collapsed while this exact alert content stays on top. Returns true
    /// if a visible bubble was actually dismissed (redraw due).
    pub fn dismiss_current(&mut self) -> (dismissed: bool)
        requires
            old(self).wf(),
        ensures
            final(self).wf(),
            final(self)@ == old(self)@.collapsed(),
            dismissed == old(self)@.shown,
    {
        if !self.shown {
            return false;
        }
        let triple: Option<(SessionKey, &'static str, String)> = match &self.slot {
            Some(b) => Some((b.key.clone(), b.label, b.body.clone())),
            None => None,
        };
        if triple.is_none() {
            return false;
        }
        self.dismissed = triple;
        self.shown = false;
        true
    }

    pub fn visible(&self) -> (bubble: Option<&Bubble>)
        requires
            self.wf(),
        ensures
            match bubble {
                Some(b) => self@.shown && b.wf() && self@.slot == Some((b.content(), b.started_ms)),
                None => !self@.shown,
            },
    {
        if self.shown {
            self.slot.as_ref()
        } else {
            None
        }
    }
}

/// State after a run of snapshots, each given by what it has to say and when
/// it arrives.
pub open spec fn after_snapshots(a: AlertView, run: Seq<(Option<Content>, u64)>) -> AlertView
    decreases run.len(),
{
    if run.len() == 0 {
        a
    } else {
        after_snapshots(a, run.drop_last()).applied(run.last().0, run.last().1).0
    }
}

/// Every snapshot of the run says nothing or says `content`.
pub open spec fn only_says(run: Seq<(Option<Content>, u64)>, content: Content) -> bool {
    forall|k: int| 0 <= k < run.len() ==> (#[trigger] run[k]).0 is None || run[k].0 == Some(content)
}

proof fn lemma_only_says_prefix(run: Seq<(Option<Content>, u64)>, content: Content)
    requires
        run.len() > 0,
        only_says(run, content),
    ensures
        only_says(run.drop_last(), content),
        run.last().0 is None || run.last().0 == Some(content),
{
    let rest = run.drop_last();
    assert forall|k: int| 0 <= k < rest.len() implies (#[trigger] rest[k]).0 is None || rest[k].0 == Some(content) by {
        assert(rest[k] == run[k]);
    }
    assert(run[run.len() - 1] == run.last());
}

/// Heartbeats and transient clears never re-type: as long as nothing else is
/// said, the reveal keeps the start it had, and the bubble is up exactly while
/// its content is on top and not dismissed.
pub proof fn reveal_survives_heartbeats_and_clears(
    a: AlertView,
    content: Content,
    started: u64,
    run: Seq<(Option<Content>, u64)>,
)
    requires
        a.wf(),
        a.slot == Some((content, started)),
        only_says(run, content),
    ensures
        after_snapshots(a, run).wf(),
        after_snapshots(a, run).slot == Some((content, started)),
        after_snapshots(a, run).dismissed == a.dismissed,
        run.len() > 0 ==> after_snapshots(a, run).shown == (run.last().0 == Some(content) && a.dismissed is None),
    decreases run.len(),
{
    if run.len() > 0 {
        lemma_only_says_prefix(run, content);
        reveal_survives_heartbeats_and_clears(a, content, started, run.drop_last());
    }
}

/// A dismissed alert stays hidden, and no redraw is asked for, as long as
/// nothing but that alert is said.
pub proof fn dismissal_holds(a: AlertView, run: Seq<(Option<Content>, u64)>, next: Option<Content>, now: u64)
    requires
        a.wf(),
        a.shown,
        only_says(run, (a.slot->0).0),
        next is None || next == Some((a.slot->0).0),
    ensures
        !after_snapshots(a.collapsed(), run).shown,
        !after_snapshots(a.collapsed(), run).applied(next, now).1,
{
    let (content, started) = a.slot->0;
    reveal_survives_heartbeats_and_clears(a.collapsed(), content, started, run);
}

/// Anything else to say, from the same session or another, lifts a dismissal:
/// it is shown at once and typed from the start.
pub proof fn changed_content_is_shown_afresh(a: AlertView, content: Content, now: u64)
    requires
        a.wf(),
        a.slot matches Some(s) ==> s.0 != content,
    ensures
        a.applied(Some(content), now) == (AlertView { shown: true, slot: Some((content, now)), dismissed: None }, true),
        a.collapsed().applied(Some(content), now).0.shown,
{
}

/// Where the bubble anchors, in physical pixels. The anchor is the SPRITE'S
/// VISIBLE CONTENT (alpha extent), never the canvas edges - sprites sit low
/// inside padded frames, and the bubble must hug what the eye sees.
#[derive(Debug, Clone, Copy, PartialEq, Eq, Structural)]
pub struct BubbleArea {
    pub canvas_w: u32,
    pub canvas_h: u32,
    /// Sprite rect (x, w) - horizontal alignment reference.
    pub sprite_x: i32,
    pub sprite_w: u32,
    /// Physical y of the sprite's visible content top / bottom edges.
    pub content_top: i32,
    pub content_bottom: i32,
    /// Bubble sits above the sprite (pointer at the bubble's bottom).
    pub above: bool,
    /// Sprite is in the right half: wide bubbles align right edges.
    pub anchor_right: bool,
    pub scale: u32,
}

/// Height of the bubble's box: label line, body lines and padding.
pub open spec fn box_height(scale: int, body_lines: int) -> int {
    scale * (2 * PAD + LINE_PX * (1 + body_lines))
}

/// Top of the bubble's box: a gap away from the visible content, above or
/// below it, pulled onto the canvas.
pub open spec fn box_top(area: BubbleArea, body_lines: int) -> int {
    let gap = BOX_GAP * area.scale;
    let height = box_height(area.scale as int, body_lines);
    if area.above {
        crate::ints::max_of(area.content_top - gap - height, 0)
    } else {
        crate::ints::min_of(area.content_bottom + gap, crate::ints::max_of(area.canvas_h - height, 0))
    }
}

/// The bubble's box can be placed in 64-bit integers without loss.
pub open spec fn box_room(area: BubbleArea, body_lines: usize) -> bool {
    box_height(area.scale as int, body_lines as int) <= i32::MAX && body_lines <= 0x100_0000
}

/// Rows of the bubble's box (top, height), in physical pixels: the box edge
/// sits the gap away from the visible content, which the tail spans.
pub fn box_rows(area: &BubbleArea, body_lines: usize) -> (rows: (i64, i64))
    requires
        box_room(*area, body_lines),
    ensures
        rows.0 == box_top(*area, body_lines as int),
        rows.1 == box_height(area.scale as int, body_lines as int),
{
    let lines: i64 = 2 * PAD as i64 + LINE_PX as i64 * (1 + body_lines as i64);
    proof {
        assert(0 <= area.scale * lines) by (nonlinear_arith)
            requires
                0 <= area.scale,
                0 <= lines,
        ;
        assert(0 <= BOX_GAP * area.scale <= 8 * u32::MAX) by (nonlinear_arith)
            requires
                BOX_GAP == 8,
                0 <= area.scale <= u32::MAX,
        ;
    }
    let height: i64 = area.scale as i64 * lines;
    let gap: i64 = BOX_GAP as i64 * area.scale as i64;
    let top: i64 = if area.above {
        let t: i64 = area.content_top as i64 - gap - height;
        if t >= 0 {
            t
        } else {
            0
        }
    } else {
        let t: i64 = area.content_bottom as i64 + gap;
        let room: i64 = area.canvas_h as i64 - height;
        let last: i64 = if room >= 0 {
            room
        } else {
            0
        };
        if t <= last {
            t
        } else {
            last
        }
    };
    (top, height)
}

/// The zone reserved beside the sprite holds the largest bubble: up to the
/// maximum of body lines, the box stands exactly its gap away from the visible
/// content and is never pushed into the sprite.
pub proof fn bubble_fits_its_zone(area: BubbleArea, body_lines: int, sprite_top: int, sprite_bottom: int)
    requires
        0 <= body_lines <= MAX_BODY_LINES,
        1 <= area.scale,
        sprite_top <= area.content_top,
        area.content_bottom <= sprite_bottom,
        area.above ==> sprite_top >= zone() * area.scale,
        !area.above ==> sprite_bottom + zone() * area.scale <= area.canvas_h,
        0 <= sprite_top,
    ensures
        area.above ==> box_top(area, body_lines) + box_height(area.scale as int, body_lines) + BOX_GAP * area.scale
            == area.content_top && box_top(area, body_lines) >= 0,
        !area.above ==> box_top(area, body_lines) == area.content_bottom + BOX_GAP * area.scale && box_top(
            area,
            body_lines,
        ) + box_height(area.scale as int, body_lines) <= area.canvas_h,
{
    let s = area.scale as int;
    let lines = 2 * PAD + LINE_PX * (1 + body_lines);
    assert(s * lines + BOX_GAP * s <= zone() * s) by (nonlinear_arith)
        requires
            lines + BOX_GAP <= zone(),
            1 <= s,
    ;
    assert(0 <= s * lines) by (nonlinear_arith)
        requires
            0 <= s,
            0 <= lines,
    ;
}

/// An alert is one session's: the first that is in the top state. Whose key it
/// is, and what it says, both come from that session, under the top state's
/// label; only a state that calls for the user gives one, and never a blank.
pub proof fn alerts_are_one_sessions(
    snapshot: &Snapshot,
    key: SessionKey,
    label: &'static str,
    body: &str,
)
    requires
        call_ensures(alert_for, (snapshot,), Some((key, label, body))),
    ensures
        exists|i: int|
            {
                let s = #[trigger] snapshot.sessions@[i];
                &&& 0 <= i < snapshot.sessions@.len()
                &&& s.state == snapshot.top
                &&& s.key.source == key.source
                &&& s.key.session@ == key.session@
                &&& s.body matches Some(b)
                &&& b@ == body@
                &&& forall|k: int| 0 <= k < i ==> (#[trigger] snapshot.sessions@[k]).state != snapshot.top
            },
        snapshot.top == AgentState::Waiting || snapshot.top == AgentState::Failed || snapshot.top
            == AgentState::Ready,
        snapshot.top == AgentState::Waiting ==> label@ == "Needs input"@,
        label@ == crate::proto::label_of(snapshot.top),
        exists|k: int| 0 <= k < body@.len() && !crate::strings::is_white(#[trigger] body@[k]),
{
    let i = choose|i: int| #[trigger]
        first_in_state(snapshot.sessions@, snapshot.top, i) && snapshot.sessions@[i].body is Some
            && crate::strings::trimmed(snapshot.sessions@[i].body->0@).len() > 0 && key@
            == snapshot.sessions@[i].key@ && body@ == snapshot.sessions@[i].body->0@;
    assert(snapshot.sessions@[i].state == snapshot.top);
    lemma_not_blank(body@);
}

/// There is no alert exactly if the top state does not call for the user, or
/// the first session in that state has nothing to say.
pub proof fn silence_has_its_reasons(
    snapshot: &Snapshot,
    alert: Option<(SessionKey, &'static str, &str)>,
    i: int,
)
    requires
        call_ensures(alert_for, (snapshot,), alert),
    ensures
        snapshot.top == AgentState::Idle || snapshot.top == AgentState::Running || snapshot.top == AgentState::Gone
            ==> alert is None,
        (forall|k: int| 0 <= k < snapshot.sessions@.len() ==> (#[trigger] snapshot.sessions@[k]).state != snapshot.top)
            ==> alert is None,
        0 <= i < snapshot.sessions@.len() && snapshot.sessions@[i].state == snapshot.top && (forall|k: int|
            0 <= k < i ==> (#[trigger] snapshot.sessions@[k]).state != snapshot.top) ==> {
            let said = snapshot.sessions@[i].body;
            &&& said is None ==> alert is None
            &&& said is Some && (forall|k: int|
                0 <= k < said->0@.len() ==> crate::strings::is_white(#[trigger] said->0@[k])) ==> alert is None
            &&& said is Some && (exists|k: int|
                0 <= k < said->0@.len() && !crate::strings::is_white(#[trigger] said->0@[k])) && (snapshot.top
                == AgentState::Waiting || snapshot.top == AgentState::Failed || snapshot.top == AgentState::Ready)
                ==> alert is Some
        },
{
    let s = snapshot.sessions@;
    let first = 0 <= i < s.len() && s[i].state == snapshot.top && (forall|k: int|
        0 <= k < i ==> (#[trigger] s[k]).state != snapshot.top);
    if first {
        assert(first_in_state(s, snapshot.top, i));
        if let Some(b) = s[i].body {
            lemma_blank(b@);
            let c = Content { key: s[i].key@, label: crate::proto::label_of(snapshot.top), body: b@ };
            if crate::strings::trimmed(b@).len() > 0 && is_alert(snapshot.top) {
                assert(is_alert_content(*snapshot, c));
            }
        }
        if alert is Some {
            let (key, label, body) = alert->0;
            let c = Content { key: key@, label: label@, body: body@ };
            let j = choose|j: int| #[trigger]
                first_in_state(s, snapshot.top, j) && s[j].body is Some && crate::strings::trimmed(s[j].body->0@).len()
                    > 0;
            if j < i {
                assert(s[j].state != snapshot.top);
            }
            if i < j {
                assert(s[i].state != snapshot.top);
            }
        }
    }
    if alert is Some {
        let j = choose|j: int| #[trigger] first_in_state(s, snapshot.top, j);
        assert(s[j].state == snapshot.top);
    }
}

proof fn lemma_blank(s: Seq<char>)
    ensures
        crate::strings::trimmed(s).len() == 0 <==> forall|k: int|
            0 <= k < s.len() ==> crate::strings::is_white(#[trigger] s[k]),
{
    crate::strings::lemma_trimmed(s);
    let (i, j) = choose|i: int, j: int| #[trigger]
        crate::strings::trimmed_between(s, i, j) && crate::strings::trimmed(s) == s.subrange(i, j);
    assert(crate::strings::trimmed_between(s, i, j));
    if i < j {
        assert(s.subrange(i, j)[0] == s[i]);
    }
}

proof fn lemma_not_blank(s: Seq<char>)
    requires
        crate::strings::trimmed(s).len() > 0,
    ensures
        exists|k: int| 0 <= k < s.len() && !crate::strings::is_white(#[trigger] s[k]),
{
    lemma_blank(s);
}

/// The `k`-th character of a body is out exactly from `k` times 30 ms after the
/// start on.
pub proof fn characters_come_at_their_time(bubble: &Bubble, now_ms: u64, n: usize, k: int)
    requires
        call_ensures(Bubble::visible_chars, (bubble, now_ms), n),
        1 <= k <= bubble.chars_total,
    ensures
        n >= k <==> now_ms >= bubble.started_ms + 30 * k,
        n <= bubble.chars_total,
{
    let e = elapsed(bubble.started_ms, now_ms);
    assert(e / 30 >= k <==> e >= 30 * k);
}

/// The part of a body that is out is a prefix of it, whole characters long, and
/// all of it at the end.
pub proof fn revealed_bytes_are_whole_characters(bubble: &Bubble, now_ms: u64, n: usize, chars: usize)
    requires
        bubble.wf(),
        call_ensures(Bubble::visible_bytes, (bubble, now_ms), n),
        call_ensures(Bubble::visible_chars, (bubble, now_ms), chars),
    ensures
        n == vstd::utf8::encode_utf8(bubble.body@.take(chars as int)).len(),
        now_ms >= bubble.started_ms + 30 * bubble.body@.len() ==> n == vstd::utf8::encode_utf8(bubble.body@).len(),
{
    let e = elapsed(bubble.started_ms, now_ms);
    if now_ms >= bubble.started_ms + 30 * bubble.body@.len() {
        assert(e / 30 >= bubble.body@.len());
        assert(bubble.body@.take(bubble.body@.len() as int) =~= bubble.body@);
    }
}

/// Redraws of a reveal come every 90 ms from its start, as long as characters
/// are missing; a complete one asks for none.
pub proof fn redraws_come_on_the_grid(bubble: &Bubble, now_ms: u64, at: Option<u64>)
    requires
        call_ensures(Bubble::typing_deadline_ms, (bubble, now_ms), at),
    ensures
        at is None <==> now_ms >= bubble.started_ms + 30 * bubble.chars_total || bubble.chars_total == 0,
        at matches Some(t) ==> t > now_ms && (t - bubble.started_ms) % 90 == 0,
        at matches Some(t) ==> (now_ms >= bubble.started_ms ==> t <= now_ms + 90),
        at matches Some(t) ==> (now_ms < bubble.started_ms ==> t == bubble.started_ms + 90),
{
    let e = elapsed(bubble.started_ms, now_ms);
    let total = bubble.chars_total as int;
    assert(e / 30 >= total <==> e >= 30 * total);
    let q = e / 90;
    assert((q + 1) * TYPE_TICK_MS == (q + 1) * 90);
    assert(((q + 1) * 90) % 90 == 0);
}

/// What is on screen of an alert.
pub open spec fn on_screen(a: AlertView) -> Option<Content> {
    match a.slot {
        Some(s) if a.shown => Some(s.0),
        _ => None,
    }
}

/// A redraw is asked for exactly if what is on screen changes; and on screen is
/// what there is to say, unless that was clicked away.
pub proof fn redraws_follow_what_is_on_screen(a: AlertView, alert: Option<Content>, now: u64)
    requires
        a.wf(),
    ensures
        a.applied(alert, now).1 <==> on_screen(a) != on_screen(a.applied(alert, now).0),
        on_screen(a.applied(alert, now).0) is None || on_screen(a.applied(alert, now).0) == alert,
        alert is Some && alert != a.dismissed ==> on_screen(a.applied(alert, now).0) == alert,
        alert is None ==> on_screen(a.applied(alert, now).0) is None,
{
}

/// A click takes away what is on screen and remembers it; where nothing is, it
/// changes nothing.
pub proof fn clicks_dismiss_what_is_on_screen(a: AlertView)
    requires
        a.wf(),
    ensures
        on_screen(a.collapsed()) is None,
        on_screen(a) is Some ==> a.collapsed().dismissed == on_screen(a) && a.collapsed().slot == a.slot,
        on_screen(a) is None ==> a.collapsed() == a,
{
}

/// The box holds its label and body lines, 18 pixels each, between paddings of
/// 10, and never starts above the canvas.
pub proof fn boxes_hold_their_lines(area: &BubbleArea, body_lines: usize, rows: (i64, i64))
    requires
        call_ensures(box_rows, (area, body_lines), rows),
    ensures
        rows.1 == area.scale * (10 + 18 + 18 * body_lines + 10),
        rows.0 >= 0 || (!area.above && area.content_bottom + 8 * area.scale < 0),
        area.above && area.content_top - 8 * area.scale - rows.1 >= 0 ==> rows.0 + rows.1 + 8 * area.scale
            == area.content_top,
        !area.above && area.content_bottom + 8 * area.scale + rows.1 <= area.canvas_h ==> rows.0 == area.content_bottom
            + 8 * area.scale,
        !area.above && 0 <= rows.1 <= area.canvas_h ==> rows.0 + rows.1 <= area.canvas_h,
{
    assert(BOX_GAP * area.scale == 8 * area.scale);
}

/// The zone that is reserved for a bubble holds its label, three lines of body,
/// the paddings and the gap: 100 pixels.
pub proof fn zone_holds_the_largest_bubble()
    ensures
        zone() == 10 + 18 + 3 * 18 + 10 + 8,
{
}

} // verus!
