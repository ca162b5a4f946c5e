//! One renderer run, as far as it is decided here: every event that reaches
//! the renderer changes this state and tells what is to be done; doing it
//! (Wayland requests, timers, files, channels) is the caller's part.
//!
//! Times are milliseconds of the run's own clock unless said otherwise.

use vstd::prelude::*;

use crate::compose::scene;
use crate::compose::sprite_scale_for;
use crate::compose::Geometry;
use crate::input::drag::Drag;
use crate::input::drag::Release;
use crate::input::router::cursor_for;
use crate::input::router::hit_test;
use crate::input::router::hover_transition;
use crate::input::router::Clicks;
use crate::input::router::Cursor;
use crate::input::router::Hit;
use crate::input::router::HoverChange;
use crate::input::router::Rect;
use crate::ints::cast_i32;
use crate::proto::AgentState;
use crate::proto::SessionKey;
use crate::proto::Snapshot;
use crate::sprite::pet_json::PetDef;
use crate::sprite::semantics::track_for;
use crate::sprite::sheet::Sheet;
use crate::sprite::timeline::Timeline;
use crate::sprite::timeline::TimelineView;
use crate::supervisor::Control;
use crate::supervisor::ControlCmd;
use crate::surface::bubble::AlertBubble;
use crate::surface::bubble::AlertView;
use crate::surface::bubble::BubbleArea;
use crate::surface::mascot::Configured;
use crate::surface::mascot::Mascot;
use crate::surface::mascot::EDGE_MARGIN;
use crate::surface::outputs::clamp_into;
use crate::surface::outputs::resolve;
use crate::surface::outputs::OutputRect;
use crate::surface::position::LegacyPosition;
use crate::surface::position::Loaded;
use crate::surface::position::Position;
use crate::surface::visibility::Visibility;

verus! {

pub struct App {
    pub pet: PetDef,
    pub sheet: Sheet,
    pub timeline: Timeline,
    pub alert: AlertBubble,
    pub mascot: Mascot,
    pub position: Position,
    /// Whether the position is known: persisted, or placed on an output.
    pub position_initialized: bool,
    /// A persisted position that still awaits output geometry.
    pub legacy: Option<LegacyPosition>,
    pub drag: Drag,
    pub clicks: Clicks,
    /// Whether the drag shows the pet walking.
    pub walking: bool,
    /// True while the pointer hovers the sprite and the jump gesture is up.
    pub hovering: bool,
    pub cursor: Cursor,
    pub last_state: AgentState,
    /// First-awake wave: fires once per run on the reveal edge.
    pub greeted: bool,
    pub last_control_seq: u64,
}

/// State of a renderer run.
pub struct AppView {
    pub pet: PetDef,
    pub frames: Seq<Seq<u8>>,
    pub frame_w: u32,
    pub frame_h: u32,
    pub timeline: TimelineView,
    pub alert: AlertView,
    pub mascot: Mascot,
    pub position: Position,
    pub position_initialized: bool,
    pub legacy: Option<LegacyPosition>,
    pub drag: Drag,
    pub clicks: Clicks,
    pub walking: bool,
    pub hovering: bool,
    pub cursor: Cursor,
    pub last_state: AgentState,
    pub greeted: bool,
    pub last_control_seq: u64,
}

impl View for App {
    type V = AppView;

    open spec fn view(&self) -> AppView {
        AppView {
            pet: self.pet,
            frames: self.sheet.frames(),
            frame_w: self.sheet.width(),
            frame_h: self.sheet.height(),
            timeline: self.timeline@,
            alert: self.alert@,
            mascot: self.mascot,
            position: self.position,
            position_initialized: self.position_initialized,
            legacy: self.legacy,
            drag: self.drag,
            clicks: self.clicks,
            walking: self.walking,
            hovering: self.hovering,
            cursor: self.cursor,
            last_state: self.last_state,
            greeted: self.greeted,
            last_control_seq: self.last_control_seq,
        }
    }
}

impl AppView {
    /// The track that shows the agents' state.
    pub open spec fn base_track(self) -> Seq<char> {
        crate::sprite::semantics::shown_track(self.last_state, self.pet)
    }

    /// The pet has the track, and it is not blank.
    pub open spec fn has_art(self, track: Seq<char>) -> bool {
        &&& self.pet.animations@.dom().contains(track)
        &&& crate::sprite::sheet::sprites_visible(
            self.frames,
            self.frame_w as int,
            self.frame_h as int,
            self.pet.animations@[track].frames.map_values(|f: crate::sprite::animation::Frame| f.sprite_index),
        )
    }

    /// The pet has the art to walk either way.
    pub open spec fn can_walk(self) -> bool {
        self.has_art("running-right"@) && self.has_art("running-left"@)
    }

    /// Where a walk is what was asked for last, it is being looped.
    pub open spec fn walk_goes_on(self) -> bool {
        forall|h: Heading| (#[trigger] h.name()) == self.timeline.requested ==> {
            &&& self.timeline.looping
            &&& self.timeline.current == self.timeline.existing(h.name())
        }
    }

    /// The dragged pet turned: it walks that way, where the drag shows it
    /// walking at all.
    pub open spec fn walked(self, heading: Heading, now: u64) -> AppView {
        if self.walking {
            AppView { timeline: self.timeline.loop_requested(heading.name(), now as int), ..self }
        } else {
            self
        }
    }

    /// A bubble is to be drawn: an alert is up, and the pet is not on the move.
    pub open spec fn bubble_due(self) -> bool {
        self.alert.shown && !(self.drag is Dragging)
    }

    /// A snapshot arrives that has `alert` to say.
    pub open spec fn snapshot_applied(
        self,
        top: AgentState,
        alert: Option<crate::surface::bubble::Content>,
        now: u64,
    ) -> (AppView, bool) {
        let turned = AppView { last_state: top, ..self };
        let next = AppView {
            timeline: if top != self.last_state && !(self.drag is Dragging) {
                self.timeline.state_requested(turned.base_track(), now as int)
            } else {
                self.timeline
            },
            alert: self.alert.applied(alert, now).0,
            ..turned
        };
        (next, top != self.last_state || self.alert.applied(alert, now).1)
    }

    /// A control arrives: its command counts unless its number was seen last.
    pub open spec fn controlled(self, control: Control) -> (AppView, Option<ControlCmd>) {
        if control.seq == self.last_control_seq {
            (self, None)
        } else {
            (AppView { last_control_seq: control.seq, ..self }, control.cmd)
        }
    }

    /// The first-awake greeting, where it is still to come: a wave, unless
    /// something is pending or the pet cannot wave.
    pub open spec fn welcomed(self, now: u64) -> AppView {
        if self.greeted {
            self
        } else {
            AppView {
                greeted: true,
                timeline: if self.last_state == AgentState::Idle && self.has_art("waving"@) {
                    self.timeline.state_requested("waving"@, now as int)
                } else {
                    self.timeline
                },
                ..self
            }
        }
    }

    /// The pointer is over the sprite, or not.
    pub open spec fn hovered(self, over_sprite: bool, now: u64) -> (AppView, bool) {
        let want = over_sprite && !(self.drag is Dragging) && self.has_art("jumping"@);
        match crate::input::router::hover_edge(self.hovering, want) {
            None => (self, false),
            Some(HoverChange::Jump) => (
                AppView {
                    hovering: want,
                    timeline: self.timeline.state_requested("jumping"@, now as int),
                    ..self
                },
                true,
            ),
            Some(HoverChange::ReturnToBase) => (
                AppView {
                    hovering: want,
                    timeline: self.timeline.state_requested(self.base_track(), now as int),
                    ..self
                },
                true,
            ),
        }
    }

    /// The mascot is hidden.
    pub open spec fn hid(self) -> AppView {
        AppView {
            drag: Drag::Idle,
            mascot: Mascot { configured: false, visibility: Visibility::Hidden, ..self.mascot },
            position: Position { visible: false, ..self.position },
            ..self
        }
    }
}

/// What showing the mascot calls for.
#[derive(Debug, Clone, Copy, PartialEq, Eq, Structural)]
pub enum Shown {
    /// It is shown already.
    Already,
    /// It was never unmapped: attach straight away.
    Attach,
    /// It must be mapped again, with these margins.
    Remap { top: i32, left: i32 },
}

/// Which way the pet travels.
#[derive(Debug, Clone, Copy, PartialEq, Eq, Structural)]
pub enum Heading {
    Left,
    Right,
}

impl Heading {
    pub open spec fn name(self) -> Seq<char> {
        match self {
            Heading::Left => "running-left"@,
            Heading::Right => "running-right"@,
        }
    }

    /// The track that shows the pet walking that way.
    pub fn track(self) -> (track: &'static str)
        ensures
            track@ == self.name(),
    {
        match self {
            Heading::Left => "running-left",
            Heading::Right => "running-right",
        }
    }
}

/// Which way a pet went that got from one horizontal coordinate to another, if
/// either.
pub fn turned(before: i32, after: i32) -> (heading: Option<Heading>)
    ensures
        heading == if after > before {
            Some(Heading::Right)
        } else if after < before {
            Some(Heading::Left)
        } else {
            None
        },
{
    if after > before {
        Some(Heading::Right)
    } else if after < before {
        Some(Heading::Left)
    } else {
        None
    }
}

/// Layout of the surface after it was decided anew.
#[derive(Debug, PartialEq, Eq)]
pub struct Placement {
    /// Surface margins.
    pub top: i32,
    pub left: i32,
    /// Input region.
    pub input: Vec<Rect>,
}

/// Mouse buttons, by their kernel codes.
pub const BTN_LEFT: u32 = 0x110;

pub const BTN_RIGHT: u32 = 0x111;

/// What the pointer does.
#[derive(Debug, Clone, Copy, PartialEq, Eq, Structural)]
pub enum PointerKind {
    Enter,
    Leave,
    Motion,
    Press { button: u32 },
    Release { button: u32 },
    Axis,
}

/// What a pointer event calls for.
#[derive(Debug, PartialEq, Eq)]
pub struct Reaction {
    /// Set this cursor shape.
    pub shape: Option<Cursor>,
    /// A drag started: move the surface with the frame callbacks.
    pub follow: bool,
    /// Ask the daemon to focus this session.
    pub focus: Option<SessionKey>,
    /// The bubble was dismissed: draw again.
    pub redraw: bool,
    /// A drag ended: let the mascot come to rest, from this position where
    /// there is one.
    pub dropped: bool,
    pub drop_at: Option<(i32, i32)>,
    /// Tell the daemon that the mascot is hidden, and hide it.
    pub hides: bool,
}

fn no_reaction() -> (r: Reaction)
    ensures
        r.shape is None,
        !r.follow,
        r.focus is None,
        !r.redraw,
        !r.dropped,
        r.drop_at is None,
        !r.hides,
{
    Reaction { shape: None, follow: false, focus: None, redraw: false, dropped: false, drop_at: None, hides: false }
}

/// Nanoseconds in a millisecond.
pub const NANOS_PER_MS: u64 = 1_000_000;

/// How long to wait for the first configure before looking again.
pub const UNCONFIGURED_WAIT_MS: u64 = 200;

impl App {
    pub open spec fn wf(&self) -> bool {
        &&& self.sheet.wf()
        &&& self.timeline.wf()
        &&& self.timeline@.animations == self.pet.animations@
        &&& self.alert.wf()
        &&& self.mascot.wf()
        &&& self.position.visible == (self.mascot.visibility != Visibility::Hidden)
        &&& self.walking ==> self@.can_walk()
        &&& self@.walk_goes_on()
    }

    /// A run starts: the pet idles, nothing is known of the agents, and the
    /// position is the one that was persisted, if any.
    pub fn new(pet: PetDef, sheet: Sheet, loaded: Loaded, wanted_scale: Option<u32>, control_seq: u64) -> (app: Self)
        requires
            pet.wf(),
            sheet.wf(),
            pet.frame_width * scale_of(pet, wanted_scale) <= u32::MAX,
            pet.frame_height * scale_of(pet, wanted_scale) + crate::surface::bubble::zone() <= u32::MAX,
        ensures
            app.wf(),
            app.pet == pet,
            app.sheet == sheet,
            app.timeline@ == (TimelineView {
                animations: pet.animations@,
                current: crate::sprite::timeline::idle(),
                frame: 0,
                deadline: crate::sprite::timeline::hold_ms(
                    pet.animations@[crate::sprite::timeline::idle()].frames[0],
                ),
                passes_left: None,
                looping: false,
                requested: crate::sprite::timeline::idle(),
            }),
            app.alert@ == (AlertView { shown: false, slot: None, dismissed: None }),
            app.position == start_position(loaded),
            app.position_initialized == (loaded is Global),
            app.legacy == match loaded {
                Loaded::Legacy(l) => Some(l),
                _ => None,
            },
            app.mascot.layout.mascot_w == pet.frame_width * scale_of(pet, wanted_scale),
            app.mascot.layout.mascot_h == pet.frame_height * scale_of(pet, wanted_scale),
            app.mascot.layout.bubble_above,
            app.mascot.layout.anchor_right,
            app.mascot.sprite_scale == scale_of(pet, wanted_scale),
            app.mascot.output_scale == 1,
            !app.mascot.configured,
            app.mascot.visibility == start_visibility(loaded),
            app.mascot.bubble_rect is None,
            app.drag == Drag::Idle,
            app.clicks == (Clicks { bubble_armed: false }),
            !app.walking,
            !app.hovering,
            app.cursor == Cursor::Default,
            app.last_state == AgentState::Idle,
            !app.greeted,
            app.last_control_seq == control_seq,
    {
        let scale: u32 = sprite_scale_for(pet.frame_height, wanted_scale);
        let (position, position_initialized, legacy): (Position, bool, Option<LegacyPosition>) = match loaded {
            Loaded::Global(p) => (p, true, None),
            Loaded::Legacy(l) => {
                let visible: bool = l.visible;
                (Position { x: 0, y: 0, visible }, false, Some(l))
            },
            Loaded::Missing => (Position { x: 0, y: 0, visible: true }, false, None),
        };
        let mascot: Mascot = Mascot::create(
            pet.frame_width * scale,
            pet.frame_height * scale,
            scale,
            position.visible,
        );
        let timeline: Timeline = Timeline::new(&pet, 0);
        proof {
            assert(crate::proto::track_of(AgentState::Idle) == crate::sprite::timeline::idle());
            lemma_no_walk(crate::sprite::timeline::idle());
        }
        App {
            pet,
            sheet,
            timeline,
            alert: AlertBubble::default(),
            mascot,
            position,
            position_initialized,
            legacy,
            drag: Drag::Idle,
            clicks: Clicks::default(),
            walking: false,
            hovering: false,
            cursor: Cursor::Default,
            last_state: AgentState::Idle,
            greeted: false,
            last_control_seq: control_seq,
        }
    }

    /// Returns true if anything visible changed (animation track or bubble).
    pub fn apply_snapshot(&mut self, snapshot: &Snapshot, now_ms: u64) -> (changed: bool)
        requires
            old(self).wf(),
            old(self)@.snapshot_applied(
                snapshot.top,
                crate::surface::bubble::alert_content(*snapshot),
                now_ms,
            ).0.timeline.deadline <= u64::MAX,
        ensures
            final(self).wf(),
            (final(self)@, changed) == old(self)@.snapshot_applied(
                snapshot.top,
                crate::surface::bubble::alert_content(*snapshot),
                now_ms,
            ),
    {
        let mut changed: bool = false;
        if snapshot.top != self.last_state {
            self.last_state = snapshot.top;
            // A drag overrides the base state; only drive the timeline when
            // not dragging. The base track is restored on release from
            // `last_state`.
            if !self.drag.dragging() {
                let track: &'static str = track_for(snapshot.top, &self.pet);
                proof {
                    lemma_shown_track(self.last_state, self.pet);
                    lemma_no_walk(track@);
                }
                self.timeline.request_state(track, now_ms);
            }
            changed = true;
        }
        // Reveal progress is keyed on content identity inside AlertBubble:
        // heartbeats, track switches, and transient clears never re-type.
        let spoke: bool = self.alert.apply(snapshot, now_ms);
        changed || spoke
    }

    /// A command from the daemon, unless it is a stale replay (e.g. after a
    /// renderer restart).
    pub fn apply_control(&mut self, control: Control) -> (cmd: Option<ControlCmd>)
        ensures
            (final(self)@, cmd) == old(self)@.controlled(control),
            old(self).wf() ==> final(self).wf(),
    {
        if control.seq == self.last_control_seq {
            return None;
        }
        self.last_control_seq = control.seq;
        control.cmd
    }

    /// Whether a gesture/state track exists and has visible art. Gates the
    /// gesture animations so a pet with a blank row (the default pet leaves
    /// rows 1-4 transparent) never plays nothing.
    pub fn track_has_art(&self, track: &str) -> (yes: bool)
        requires
            self.wf(),
        ensures
            yes == self@.has_art(track@),
    {
        match self.pet.animations.get(track) {
            None => false,
            Some(a) => {
                let mut sprites: Vec<usize> = Vec::new();
                let mut i: usize = 0;
                while i < a.frames.len()
                    invariant
                        i <= a.frames@.len(),
                        sprites@.len() == i,
                        forall|k: int| 0 <= k < i ==> sprites@[k] == a.frames@[k].sprite_index,
                    decreases a.frames@.len() - i,
                {
                    sprites.push(a.frames[i].sprite_index);
                    i += 1;
                }
                assert(sprites@ =~= a@.frames.map_values(|f: crate::sprite::animation::Frame| f.sprite_index));
                self.sheet.any_visible(sprites.as_slice())
            },
        }
    }

    /// Hover the sprite -> jump once (burst); leave -> back to the base
    /// state. Only touches the animation, never the input routing
    /// (click/drag/right-click unaffected). Returns whether to draw.
    pub fn set_hover(&mut self, over_sprite: bool, now_ms: u64) -> (redraw: bool)
        requires
            old(self).wf(),
            old(self)@.hovered(over_sprite, now_ms).0.timeline.deadline <= u64::MAX,
        ensures
            final(self).wf(),
            (final(self)@, redraw) == old(self)@.hovered(over_sprite, now_ms),
    {
        let dragging: bool = self.drag.dragging();
        let art: bool = self.track_has_art("jumping");
        let mut hovering: bool = self.hovering;
        let change: Option<HoverChange> = hover_transition(over_sprite, !dragging, dragging, art, &mut hovering);
        self.hovering = hovering;
        match change {
            Some(HoverChange::Jump) => {
                proof {
                    lemma_no_walk("jumping"@);
                }
                self.timeline.request_state("jumping", now_ms);
                true
            },
            Some(HoverChange::ReturnToBase) => {
                let track: &'static str = track_for(self.last_state, &self.pet);
                proof {
                    lemma_shown_track(self.last_state, self.pet);
                    lemma_no_walk(track@);
                }
                self.timeline.request_state(track, now_ms);
                true
            },
            None => false,
        }
    }

    /// First-awake greeting: on the reveal edge, wave once (a burst of
    /// passes). Skipped when something is already pending (the alert takes
    /// precedence) or when the pet has no waving art. One-time per run.
    pub fn maybe_greet(&mut self, now_ms: u64)
        requires
            old(self).wf(),
            old(self)@.welcomed(now_ms).timeline.deadline <= u64::MAX,
        ensures
            final(self).wf(),
            final(self)@ == old(self)@.welcomed(now_ms),
    {
        if self.greeted {
            return;
        }
        self.greeted = true;
        if self.last_state == AgentState::Idle && self.track_has_art("waving") {
            proof {
                lemma_no_walk("waving"@);
            }
            self.timeline.request_state("waving", now_ms);
        }
    }

    /// A frame is to be drawn: `None` while there is no surface to draw on,
    /// else the geometry to draw in, with the animation brought up to date.
    pub fn begin_frame(&mut self, now_ms: u64) -> (geo: Option<Geometry>)
        requires
            old(self).wf(),
            old(self).mascot.configured && old(self).mascot.visibility == Visibility::Visible ==> old(
                self,
            )@.timeline.advanced(now_ms as int).deadline <= u64::MAX,
        ensures
            final(self).wf(),
            match geo {
                Some(g) => {
                    &&& old(self).mascot.configured
                    &&& old(self).mascot.visibility == Visibility::Visible
                    &&& final(self)@ == (AppView {
                        timeline: old(self)@.timeline.advanced(now_ms as int),
                        ..old(self)@
                    })
                    &&& g.oscale >= 1
                    &&& g == geometry_of(old(self).mascot)
                },
                None => {
                    &&& !old(self).mascot.configured || old(self).mascot.visibility != Visibility::Visible
                    &&& final(self)@ == old(self)@
                },
            },
    {
        if !self.mascot.configured || !self.mascot.visibility.shown() {
            return None;
        }
        let moved: bool = self.timeline.advance(now_ms);
        proof {
            crate::sprite::timeline::advanced_wf(old(self)@.timeline, now_ms as int);
            if old(self)@.timeline.looping {
                crate::sprite::timeline::asked_loop_goes_on(old(self)@.timeline, now_ms as int);
            }
        }
        Some(self.mascot.geometry())
    }

    /// Draw the sprite. Returns where the bubble goes when one is to be drawn:
    /// none while dragging (repositioning, not reading); it returns on drop.
    pub fn draw(&mut self, buf: &mut [u8], geo: &Geometry) -> (area: Option<BubbleArea>)
        requires
            old(self).wf(),
            crate::compose::scene_room(old(buf)@.len(), *geo, old(self).sheet, old(self)@.bubble_due()),
        ensures
            final(self).wf(),
            final(self)@ == old(self)@,
            final(buf)@ == match crate::compose::shown_frame(
                old(self).sheet.frames_for(geo.factor()),
                old(self)@.timeline.track().frames[old(self)@.timeline.frame].sprite_index,
            ) {
                None => old(buf)@,
                Some(frame) => crate::compose::composed(
                    old(buf)@.len(),
                    *geo,
                    frame,
                    old(self)@.frame_w as int,
                    old(self)@.frame_h as int,
                ),
            },
            match area {
                Some(a) => {
                    &&& old(self)@.bubble_due()
                    &&& old(self)@.frames.len() > 0
                    &&& exists|top: int, bottom: int| #[trigger]
                        old(self).sheet.is_content_span(
                            crate::compose::track_sprites(old(self)@.timeline),
                            top,
                            bottom,
                        ) && a == crate::compose::area_of(*geo, top, bottom)
                },
                None => !old(self)@.bubble_due() || old(self)@.frames.len() == 0,
            },
    {
        let bubble: bool = self.alert.visible().is_some() && !self.drag.dragging();
        scene(buf, geo, &mut self.sheet, &self.timeline, bubble)
    }

    /// A frame was drawn, with the bubble's box (physical pixels) where one
    /// was. Returns the new input region when it changed; while dragging only
    /// the margins move.
    pub fn frame_drawn(&mut self, px: Option<(i32, i32, u32, u32)>) -> (region: Option<Vec<Rect>>)
        requires
            old(self).wf(),
        ensures
            final(self).wf(),
            old(self).drag is Dragging ==> region is None && final(self)@ == old(self)@,
            !(old(self).drag is Dragging) ==> {
                let rect = crate::surface::mascot::logical_bubble(px, old(self).mascot.scale());
                &&& final(self)@ == (AppView {
                    mascot: Mascot { bubble_rect: rect, ..old(self).mascot },
                    ..old(self)@
                })
                &&& match region {
                    Some(rects) => old(self).mascot.bubble_rect != rect && rects@ == crate::input::router::input_of(
                        old(self).mascot.layout.sprite(),
                        rect,
                    ),
                    None => old(self).mascot.bubble_rect == rect,
                }
            },
    {
        if self.drag.dragging() {
            return None;
        }
        self.mascot.bubble_drawn(px)
    }

    /// When to draw next, in nanoseconds of the run's clock: at the earliest
    /// of the sprite's and the typewriter's deadlines, but not within the next
    /// millisecond. Until the first configure lands, look again gently.
    pub fn next_wakeup(&self, now_ns: u64) -> (at_ns: u128)
        requires
            self.wf(),
            self.mascot.configured && self.typing((now_ns / NANOS_PER_MS) as u64) ==> crate::surface::bubble::next_tick(
                (self@.alert.slot->0).1,
                (now_ns / NANOS_PER_MS) as u64,
            ) <= u64::MAX,
        ensures
            at_ns == self.wakeup(now_ns),
    {
        if !self.mascot.configured {
            return now_ns as u128 + (UNCONFIGURED_WAIT_MS * NANOS_PER_MS) as u128;
        }
        let now: u64 = now_ns / NANOS_PER_MS;
        let mut deadline: u64 = self.timeline.next_deadline_ms();
        if let Some(b) = self.alert.visible() {
            if let Some(t) = b.typing_deadline_ms(now) {
                if t < deadline {
                    deadline = t;
                }
            }
        }
        let at: u128 = deadline as u128 * NANOS_PER_MS as u128;
        let soon: u128 = now_ns as u128 + NANOS_PER_MS as u128;
        if at >= soon {
            at
        } else {
            soon
        }
    }

    /// The bubble that is up is still being typed.
    pub open spec fn typing(&self, now: u64) -> bool {
        &&& self@.alert.shown
        &&& self@.alert.slot matches Some((content, started))
        &&& crate::surface::bubble::revealed(started, content.body.len() as int, now) < content.body.len()
    }

    /// When to draw next.
    pub open spec fn wakeup(&self, now_ns: u64) -> int {
        if !self.mascot.configured {
            now_ns + UNCONFIGURED_WAIT_MS * NANOS_PER_MS
        } else {
            let now = (now_ns / NANOS_PER_MS) as u64;
            let deadline = if self.typing(now) {
                crate::ints::min_of(
                    self@.timeline.deadline,
                    crate::surface::bubble::next_tick((self@.alert.slot->0).1, now),
                )
            } else {
                self@.timeline.deadline
            };
            crate::ints::max_of(deadline * NANOS_PER_MS, now_ns + NANOS_PER_MS)
        }
    }

    /// Take a cursor shape. Returns it when it is another than before.
    pub fn set_cursor(&mut self, cursor: Cursor) -> (shape: Option<Cursor>)
        ensures
            final(self)@ == (AppView { cursor, ..old(self)@ }),
            old(self).wf() ==> final(self).wf(),
            shape == if cursor == old(self).cursor {
                None
            } else {
                Some(cursor)
            },
    {
        if cursor == self.cursor {
            return None;
        }
        self.cursor = cursor;
        Some(cursor)
    }

    /// Place the mascot, once output geometry is known and no position was
    /// persisted: an older position is migrated, else the default is the
    /// bottom right of `on`, the output that it shows on. Whether it is visible
    /// was known before, and may have changed since.
    pub fn ensure_position(&mut self, outputs: &[OutputRect], on: Option<&OutputRect>)
        requires
            old(self).wf(),
            !old(self).position_initialized ==> match old(self).legacy {
                Some(l) => forall|i: int| #[trigger]
                    crate::surface::position::counts_from(outputs@, crate::strings::text_of(l.output_name), i) ==> {
                        &&& crate::surface::outputs::fits_i32(outputs@[i].x + l.margin_x)
                        &&& crate::surface::outputs::fits_i32(outputs@[i].y + l.margin_y)
                    },
                None => on matches Some(o) ==> corner_fits(*o, old(self).mascot),
            },
        ensures
            final(self).wf(),
            if old(self).position_initialized {
                final(self)@ == old(self)@
            } else {
                match old(self).legacy {
                    Some(l) => if outputs@.len() == 0 {
                        final(self)@ == old(self)@
                    } else {
                        exists|i: int| #[trigger]
                            crate::surface::position::counts_from(
                                outputs@,
                                crate::strings::text_of(l.output_name),
                                i,
                            ) && final(self)@ == (AppView {
                                position: Position {
                                    x: (outputs@[i].x + l.margin_x) as i32,
                                    y: (outputs@[i].y + l.margin_y) as i32,
                                    ..old(self).position
                                },
                                position_initialized: true,
                                legacy: None,
                                ..old(self)@
                            })
                    },
                    None => match on {
                        None => final(self)@ == old(self)@,
                        Some(o) => final(self)@ == (AppView {
                            position: Position {
                                x: corner(o.x as int, o.w as int, old(self).mascot.layout.mascot_w) as i32,
                                y: corner(o.y as int, o.h as int, old(self).mascot.layout.mascot_h) as i32,
                                ..old(self).position
                            },
                            position_initialized: true,
                            ..old(self)@
                        }),
                    },
                }
            },
    {
        if self.position_initialized {
            return;
        }
        if let Some(legacy) = &self.legacy {
            let migrated: Option<Position> = legacy.migrate(outputs);
            if let Some(p) = migrated {
                self.position.x = p.x;
                self.position.y = p.y;
                self.legacy = None;
                self.position_initialized = true;
            }
            return;
        }
        if let Some(o) = on {
            self.position.x = o.x + o.w - cast_i32(self.mascot.layout.mascot_w) - EDGE_MARGIN;
            self.position.y = o.y + o.h - cast_i32(self.mascot.layout.mascot_h) - EDGE_MARGIN;
            self.position_initialized = true;
        }
    }

    /// Recompute quadrant layout, margins, and input region from the mascot's
    /// output-local position. Skipped mid-drag: the drag moves margins
    /// directly and freezes the quadrant so the sprite offset doesn't jump.
    pub fn sync_layout(&mut self, at: (i32, i32)) -> (placement: Option<Placement>)
        requires
            old(self).wf(),
        ensures
            final(self).wf(),
            match placement {
                None => old(self).drag is Dragging && final(self)@ == old(self)@,
                Some(p) => {
                    let layout = old(self).mascot.layout.placed(at.0 as int, at.1 as int);
                    &&& !(old(self).drag is Dragging)
                    &&& final(self)@ == (AppView { mascot: Mascot { layout, ..old(self).mascot }, ..old(self)@ })
                    &&& p.top == at.1 - layout.mascot_y
                    &&& p.left == at.0 - layout.mascot_x
                    &&& p.input@ == crate::input::router::input_of(layout.sprite(), old(self).mascot.bubble_rect)
                },
            },
    {
        if self.drag.dragging() {
            return None;
        }
        self.mascot.relayout(at);
        let input: Vec<Rect> = self.mascot.update_input_region();
        let (top, left): (i32, i32) = self.mascot.apply_margins(at);
        Some(Placement { top, left, input })
    }

    /// Threshold crossed: start following the cursor. The mascot stays its
    /// small docked surface - Wayland's implicit pointer grab keeps motion
    /// events flowing even off the surface. The quadrant layout is frozen for
    /// the drag so the sprite offset within the surface stays fixed (only the
    /// margins move). A hover-jump ends here: it is docked-only. The pet only
    /// walks if it has directional walk art (both rows); the default pet's
    /// rows 1-2 are blank, so it just slides.
    pub fn begin_drag(&mut self)
        requires
            old(self).wf(),
        ensures
            final(self).wf(),
            final(self)@ == (AppView { hovering: false, walking: old(self)@.can_walk(), ..old(self)@ }),
    {
        self.hovering = false;
        self.walking = self.track_has_art("running-right") && self.track_has_art("running-left");
    }

    /// The dragged pet turned: while the drag shows it walking, it walks that
    /// way until it turns again or is dropped.
    pub fn walk(&mut self, heading: Heading, now_ms: u64)
        requires
            old(self).wf(),
            old(self).walking ==> old(self)@.timeline.loop_requested(heading.name(), now_ms as int).deadline <= u64::MAX,
        ensures
            final(self).wf(),
            final(self)@ == old(self)@.walked(heading, now_ms),
    {
        proof {
            lemma_headings_differ();
        }
        if self.walking {
            self.timeline.request_loop(heading.track(), now_ms);
        }
    }

    /// A frame callback during a drag: take the stashed motion over into the
    /// position. Returns the global position to move to; `None` when no drag
    /// is on.
    pub fn drag_apply_step(&mut self) -> (to: Option<(i32, i32)>)
        requires
            old(self).drag.target_fits(),
        ensures
            old(self).wf() ==> final(self).wf(),
            match to {
                Some((x, y)) => {
                    &&& old(self).drag.target() == Some((x as int, y as int))
                    &&& final(self)@ == (AppView {
                        drag: old(self).drag.rebased(),
                        position: Position { x, y, ..old(self).position },
                        ..old(self)@
                    })
                },
                None => old(self).drag.target() is None && final(self)@ == old(self)@,
            },
    {
        match self.drag.take_pending() {
            Some((x, y)) => {
                self.position.x = x;
                self.position.y = y;
                Some((x, y))
            },
            None => None,
        }
    }

    /// Drag finished: take the last position over, clamp on-screen, stop
    /// walking, and go back to the base state. The caller lays out anew and persists.
    pub fn drag_drop(&mut self, to: Option<(i32, i32)>, outputs: &[OutputRect], now_ms: u64)
        requires
            old(self).wf(),
            old(self)@.timeline.state_requested(old(self)@.base_track(), now_ms as int).deadline <= u64::MAX,
            drop_room(old(self)@, to, outputs@),
        ensures
            final(self).wf(),
            exists|x: i32, y: i32| #[trigger]
                comes_to_rest(old(self)@, to, outputs@, x, y) && final(self)@ == (AppView {
                    position: Position { x, y, ..old(self).position },
                    walking: false,
                    timeline: old(self)@.timeline.state_requested(old(self)@.base_track(), now_ms as int),
                    ..old(self)@
                }),
    {
        let (x, y): (i32, i32) = match to {
            Some((x, y)) => (x, y),
            None => (self.position.x, self.position.y),
        };
        let w: i32 = cast_i32(self.mascot.layout.mascot_w);
        let h: i32 = cast_i32(self.mascot.layout.mascot_h);
        let (rx, ry): (i32, i32) = match resolve(outputs, x, y) {
            Some((o, _, _)) => clamp_into(o, x, y, w, h),
            None => {
                let screen = OutputRect {
                    name: String::new(),
                    x: 0,
                    y: 0,
                    w: cast_i32(self.mascot.layout.surf_w),
                    h: cast_i32(self.mascot.layout.surf_h),
                };
                clamp_into(&screen, x, y, w, h)
            },
        };
        assert(comes_to_rest(old(self)@, to, outputs@, rx, ry));
        self.position.x = rx;
        self.position.y = ry;
        self.walking = false;
        let track: &'static str = track_for(self.last_state, &self.pet);
        proof {
            lemma_shown_track(self.last_state, self.pet);
            lemma_no_walk(track@);
        }
        self.timeline.request_state(track, now_ms);
    }

    /// Hide the mascot. Returns false when it is hidden already; else the
    /// caller unmaps the surface and persists the position. The frame timer
    /// parks itself on its next tick.
    pub fn hide_mascot(&mut self) -> (hid: bool)
        ensures
            old(self).wf() ==> final(self).wf(),
            hid == (old(self).mascot.visibility != Visibility::Hidden),
            final(self)@ == if hid {
                old(self)@.hid()
            } else {
                old(self)@
            },
    {
        if self.mascot.visibility == Visibility::Hidden {
            return false;
        }
        self.drag.release();
        self.mascot.unmap();
        self.position.visible = false;
        true
    }

    /// Show the mascot, whose output-local position is `at`. Unless it is
    /// shown already, the caller persists the position and attaches or maps
    /// the surface.
    pub fn show_mascot(&mut self, at: (i32, i32), now_ms: u64) -> (shown: Shown)
        requires
            old(self).wf(),
            old(self).mascot.visibility != Visibility::Visible && old(self).mascot.configured ==> old(self)@.welcomed(
                now_ms,
            ).timeline.deadline <= u64::MAX,
            old(self).mascot.visibility != Visibility::Visible && !old(self).mascot.configured ==> old(
                self,
            ).mascot.layout.margins_fit(at.0 as int, at.1 as int),
        ensures
            final(self).wf(),
            if old(self).mascot.visibility == Visibility::Visible {
                shown == Shown::Already && final(self)@ == old(self)@
            } else if old(self).mascot.configured {
                shown == Shown::Attach && final(self)@ == (AppView {
                    position: Position { visible: true, ..old(self).position },
                    mascot: Mascot { visibility: Visibility::Visible, ..old(self).mascot },
                    ..old(self)@
                }).welcomed(now_ms)
            } else {
                &&& shown matches Shown::Remap { top, left }
                &&& top == at.1 - old(self).mascot.layout.mascot_y
                &&& left == at.0 - old(self).mascot.layout.mascot_x
                &&& final(self)@ == (AppView {
                    position: Position { visible: true, ..old(self).position },
                    mascot: Mascot { visibility: Visibility::Remapping, ..old(self).mascot },
                    ..old(self)@
                })
            },
    {
        if self.mascot.visibility.shown() {
            return Shown::Already;
        }
        self.position.visible = true;
        if self.mascot.configured {
            // Never unmapped (startup-hidden): the first configure is still
            // valid, attach straight away.
            self.mascot.visibility = Visibility::Visible;
            self.maybe_greet(now_ms);
            Shown::Attach
        } else {
            let (top, left): (i32, i32) = self.mascot.request_remap(at);
            Shown::Remap { top, left }
        }
    }

    /// The compositor configured the surface; the first time it is seen, the
    /// pet greets.
    pub fn configure(&mut self, now_ms: u64) -> (step: Configured)
        requires
            old(self).wf(),
            old(self).mascot.visibility == Visibility::Remapping ==> old(self)@.welcomed(now_ms).timeline.deadline
                <= u64::MAX,
        ensures
            final(self).wf(),
            step == match old(self).mascot.visibility {
                Visibility::Hidden => Configured::Quiet,
                Visibility::Remapping => Configured::Revealed,
                Visibility::Visible => Configured::Refreshed,
            },
            ({
                let after = AppView {
                    mascot: Mascot {
                        configured: true,
                        visibility: old(self).mascot.visibility.after(
                            crate::surface::visibility::Mapping::Configure,
                        ),
                        ..old(self).mascot
                    },
                    ..old(self)@
                };
                final(self)@ == if step == Configured::Revealed {
                    after.welcomed(now_ms)
                } else {
                    after
                }
            }),
    {
        let step: Configured = self.mascot.configure();
        if step == Configured::Revealed {
            self.maybe_greet(now_ms);
        }
        step
    }

    /// The pointer moved over `hit`.
    fn moved_over(&mut self, hit: Hit, pos: (i32, i32)) -> (r: Reaction)
        requires
            old(self).wf(),
        ensures
            final(self).wf(),
            reacts(old(self)@, PointerKind::Motion, pos, hit, final(self)@, r),
    {
        let mut r: Reaction = no_reaction();
        // Motions only stash; margins move on the frame-callback
        // cadence so each delta is measured against a position the
        // compositor has applied.
        if self.drag.motion(pos) {
            self.begin_drag();
            r.follow = true;
            r.shape = self.set_cursor(Cursor::Grabbing);
        } else if !self.drag.dragging() {
            r.shape = self.set_cursor(cursor_for(false, hit));
        }
        r
    }

    /// The pointer left the surface.
    fn left_surface(&mut self, hit: Hit, pos: (i32, i32)) -> (r: Reaction)
        requires
            old(self).wf(),
        ensures
            final(self).wf(),
            reacts(old(self)@, PointerKind::Leave, pos, hit, final(self)@, r),
    {
        // A drag in progress survives Leave (the implicit grab keeps
        // motion flowing); pending clicks do not. The cursor belongs
        // to another surface now: reset state only, no protocol call.
        if !self.drag.dragging() {
            self.drag.release();
        }
        self.clicks.cancel();
        self.cursor = Cursor::Default;
        no_reaction()
    }

    /// A button was pressed over `hit`.
    fn pressed_over(&mut self, hit: Hit, pos: (i32, i32), button: u32) -> (r: Reaction)
        requires
            old(self).wf(),
        ensures
            final(self).wf(),
            reacts(old(self)@, PointerKind::Press { button }, pos, hit, final(self)@, r),
    {
        let mut r: Reaction = no_reaction();
        if button == BTN_LEFT {
            if self.clicks.press(hit) {
                self.drag.press(pos, (self.position.x, self.position.y));
            }
        } else if button == BTN_RIGHT {
            self.drag.release();
            self.clicks.cancel();
            r.hides = true;
        }
        r
    }

    /// The left button was released over `hit`.
    fn released_over(&mut self, hit: Hit, pos: (i32, i32)) -> (r: Reaction)
        requires
            old(self).wf(),
            old(self).drag.target_fits(),
        ensures
            final(self).wf(),
            reacts(old(self)@, PointerKind::Release { button: BTN_LEFT }, pos, hit, final(self)@, r),
    {
        let mut r: Reaction = no_reaction();
        if self.clicks.release(hit) {
            let key: Option<SessionKey> = match self.alert.visible() {
                Some(bubble) => Some(bubble.key.clone()),
                None => None,
            };
            if key.is_some() {
                // Optimistic: collapse the nag now rather than
                // waiting on the focus-suppression round-trip
                // (works for waiting alerts and focus-join misses
                // too). The mascot track is unchanged.
                r.focus = key;
                r.redraw = self.alert.dismiss_current();
            }
        }
        r.drop_at = self.drag.take_pending();
        r.dropped = match self.drag.release() {
            Release::Dropped => true,
            // Sprite click-without-drag: nothing.
            _ => false,
        };
        r.shape = self.set_cursor(cursor_for(false, hit));
        r
    }

    /// Route a pointer event at `pos` (1/256 pixels of the surface).
    pub fn pointer(&mut self, kind: PointerKind, pos: (i32, i32)) -> (r: Reaction)
        requires
            old(self).wf(),
            old(self).mascot.layout.sprite().testable(pos),
            old(self).mascot.bubble_rect matches Some(b) ==> b.testable(pos),
            kind == (PointerKind::Release { button: BTN_LEFT }) ==> old(self).drag.target_fits(),
        ensures
            final(self).wf(),
            reacts(
                old(self)@,
                kind,
                pos,
                crate::input::router::hit_of(pos, old(self).mascot.layout.sprite(), old(self).mascot.bubble_rect),
                final(self)@,
                r,
            ),
    {
        let hit: Hit = hit_test(pos, self.mascot.sprite_rect(), self.mascot.bubble_rect);
        let mut r: Reaction = no_reaction();
        match kind {
            PointerKind::Enter => {
                r.shape = self.set_cursor(cursor_for(self.drag.dragging(), hit));
            },
            PointerKind::Leave => {
                r = self.left_surface(hit, pos);
            },
            PointerKind::Motion => {
                r = self.moved_over(hit, pos);
            },
            PointerKind::Press { button } => {
                r = self.pressed_over(hit, pos, button);
            },
            PointerKind::Release { button } => {
                if button == BTN_LEFT {
                    r = self.released_over(hit, pos);
                }
            },
            PointerKind::Axis => {},
        }
        r
    }
}

/// Where the mascot is at the start of a run, as far as that is known, and
/// whether it is to be seen.
pub open spec fn start_position(loaded: Loaded) -> Position {
    match loaded {
        Loaded::Global(p) => p,
        Loaded::Legacy(l) => Position { x: 0, y: 0, visible: l.visible },
        Loaded::Missing => Position { x: 0, y: 0, visible: true },
    }
}

/// A run starts hidden, or waiting for the configure that reveals the mascot.
pub open spec fn start_visibility(loaded: Loaded) -> Visibility {
    if start_position(loaded).visible {
        Visibility::Remapping
    } else {
        Visibility::Hidden
    }
}

/// A track that shows a state or a gesture, not a walk.
spec fn no_walk(track: Seq<char>) -> bool {
    ||| exists|state: AgentState| track == #[trigger] crate::proto::track_of(state)
    ||| track == "jumping"@
    ||| track == "waving"@
}

/// The track that shows a state is none of a walk.
proof fn lemma_shown_track(state: AgentState, pet: PetDef)
    ensures
        no_walk(crate::sprite::semantics::shown_track(state, pet)),
{
    assert(crate::proto::track_of(state) == crate::proto::track_of(state));
    assert(crate::proto::track_of(AgentState::Idle) == crate::sprite::timeline::idle());
}

proof fn lemma_no_walk(track: Seq<char>)
    requires
        no_walk(track),
    ensures
        forall|h: Heading| (#[trigger] h.name()) != track,
{
    reveal_strlit("idle");
    reveal_strlit("running");
    reveal_strlit("waiting");
    reveal_strlit("review");
    reveal_strlit("failed");
    reveal_strlit("jumping");
    reveal_strlit("waving");
    reveal_strlit("running-left");
    reveal_strlit("running-right");
    assert(track.len() <= 7);
    assert forall|h: Heading| (#[trigger] h.name()) != track by {
        assert(h.name().len() > 7);
    }
}

proof fn lemma_headings_differ()
    ensures
        Heading::Left.name() != Heading::Right.name(),
{
    reveal_strlit("running-left");
    reveal_strlit("running-right");
    assert(Heading::Left.name().len() != Heading::Right.name().len());
}

/// Integer upscale of a pet's sprite.
pub open spec fn scale_of(pet: PetDef, wanted: Option<u32>) -> int {
    match wanted {
        Some(s) => crate::ints::clamped(s as int, 1, 8),
        None => crate::compose::natural_scale(pet.frame_height as int),
    }
}

/// Everything that composing a mascot's frame needs.
pub open spec fn geometry_of(mascot: Mascot) -> Geometry {
    Geometry {
        surf_w: mascot.layout.surf_w,
        surf_h: mascot.layout.surf_h,
        mascot_x: mascot.layout.mascot_x,
        mascot_y: mascot.layout.mascot_y,
        mascot_w: mascot.layout.mascot_w,
        bubble_above: mascot.layout.bubble_above,
        anchor_right: mascot.layout.anchor_right,
        sprite_scale: mascot.sprite_scale,
        oscale: mascot.scale() as u32,
    }
}

/// A frame of the mascot always fits on its surface, in whatever quadrant it
/// sits and whatever the output's scale is: it is never left undrawn.
pub proof fn sprite_always_fits(mascot: Mascot, frame_w: int, frame_h: int)
    requires
        mascot.wf(),
        mascot.layout.mascot_w == frame_w * mascot.sprite_scale,
        mascot.layout.mascot_h == frame_h * mascot.sprite_scale,
    ensures
        ({
            let geo = geometry_of(mascot);
            crate::canvas::fits(
                geo.surf_w * geo.oscale,
                geo.surf_h * geo.oscale,
                frame_w * geo.factor(),
                frame_h * geo.factor(),
                geo.mascot_x * geo.scale(),
                geo.mascot_y * geo.scale(),
            )
        }),
{
    let geo = geometry_of(mascot);
    let s = mascot.scale();
    crate::surface::layout::sprite_stays_on_its_surface(mascot.layout);
    assert(geo.scale() == s && geo.oscale == s);
    lemma_side_fits(geo.mascot_x as int, frame_w, geo.sprite_scale as int, geo.surf_w as int, s);
    lemma_side_fits(geo.mascot_y as int, frame_h, geo.sprite_scale as int, geo.surf_h as int, s);
}

/// The bubble hugs what the eye sees: in either quadrant its box stands exactly
/// the gap away from the visible content, on the canvas and off the sprite.
pub proof fn bubble_hugs_the_visible_sprite(mascot: Mascot, frame_h: int, top: int, bottom: int, body_lines: int)
    requires
        mascot.wf(),
        mascot.layout.mascot_h == frame_h * mascot.sprite_scale,
        mascot.layout.surf_h * mascot.scale() <= i32::MAX,
        0 <= top <= bottom <= frame_h,
        0 <= body_lines <= crate::surface::bubble::MAX_BODY_LINES,
    ensures
        ({
            let geo = geometry_of(mascot);
            let area = crate::compose::area_of(geo, top, bottom);
            let box_top = crate::surface::bubble::box_top(area, body_lines);
            let box_bottom = box_top + crate::surface::bubble::box_height(area.scale as int, body_lines);
            let gap = crate::surface::bubble::BOX_GAP * area.scale;
            &&& area.content_top == geo.mascot_y * geo.scale() + top * geo.factor()
            &&& area.content_bottom == geo.mascot_y * geo.scale() + bottom * geo.factor()
            &&& area.above ==> 0 <= box_top && box_bottom + gap == area.content_top
            &&& !area.above ==> box_top == area.content_bottom + gap && box_bottom <= area.canvas_h
        }),
{
    let geo = geometry_of(mascot);
    let s = mascot.scale();
    let area = crate::compose::area_of(geo, top, bottom);
    let y = geo.mascot_y as int;
    let h = mascot.layout.mascot_h as int;
    crate::surface::layout::sprite_stays_on_its_surface(mascot.layout);
    assert(geo.scale() == s && geo.oscale == s);
    lemma_side_fits(y, frame_h, geo.sprite_scale as int, geo.surf_h as int, s);
    let f = geo.factor();
    assert(frame_h * f == h * s) by (nonlinear_arith)
        requires
            h == frame_h * geo.sprite_scale,
            f == geo.sprite_scale * s,
    ;
    assert(0 <= f) by (nonlinear_arith)
        requires
            f == geo.sprite_scale * s,
            0 <= geo.sprite_scale,
            1 <= s,
    ;
    assert(0 <= top * f <= bottom * f <= frame_h * f) by (nonlinear_arith)
        requires
            0 <= top <= bottom <= frame_h,
            0 <= f,
    ;
    assert(0 <= y * s) by (nonlinear_arith)
        requires
            0 <= y,
            1 <= s,
    ;
    assert((y + h) * s == y * s + h * s) by (nonlinear_arith);
    let zone = crate::surface::bubble::zone();
    if geo.bubble_above {
        assert(y * s == zone * s);
    } else {
        assert((y + h + zone) * s == (y + h) * s + zone * s) by (nonlinear_arith);
    }
    crate::surface::bubble::bubble_fits_its_zone(area, body_lines, y * s, (y + h) * s);
}

proof fn lemma_side_fits(at: int, frame: int, factor: int, room: int, s: int)
    requires
        at + frame * factor <= room,
        1 <= s,
    ensures
        at * s + frame * (factor * s) <= room * s,
{
    assert(frame * (factor * s) == (frame * factor) * s) by (nonlinear_arith);
    assert((at + frame * factor) * s == at * s + (frame * factor) * s) by (nonlinear_arith);
    assert((at + frame * factor) * s <= room * s) by (nonlinear_arith)
        requires
            at + frame * factor <= room,
            1 <= s,
    ;
}

/// Where a side of the mascot starts to leave the edge gap at the far end of
/// an output.
pub open spec fn corner(origin: int, room: int, size: u32) -> int {
    origin + room - crate::ints::wrap_i32(size) - EDGE_MARGIN
}

/// The default corner can be computed.
pub open spec fn corner_fits(o: OutputRect, mascot: Mascot) -> bool {
    let w = crate::ints::wrap_i32(mascot.layout.mascot_w);
    let h = crate::ints::wrap_i32(mascot.layout.mascot_h);
    &&& crate::surface::outputs::fits_i32(o.x + o.w)
    &&& crate::surface::outputs::fits_i32(o.y + o.h)
    &&& crate::surface::outputs::fits_i32(o.x + o.w - w)
    &&& crate::surface::outputs::fits_i32(o.y + o.h - h)
    &&& crate::surface::outputs::fits_i32(o.x + o.w - w - EDGE_MARGIN)
    &&& crate::surface::outputs::fits_i32(o.y + o.h - h - EDGE_MARGIN)
}

/// Where a drag ends, before it is clamped.
pub open spec fn dropped_at(app: AppView, to: Option<(i32, i32)>) -> (int, int) {
    match to {
        Some((x, y)) => (x as int, y as int),
        None => (app.position.x as int, app.position.y as int),
    }
}

/// A dropped mascot comes to rest at (x, y): fully inside the output that hosts
/// it, as near as possible; with no output known, inside its own surface.
pub open spec fn comes_to_rest(app: AppView, to: Option<(i32, i32)>, outputs: Seq<OutputRect>, x: i32, y: i32) -> bool {
    let at = dropped_at(app, to);
    let w = crate::ints::wrap_i32(app.mascot.layout.mascot_w);
    let h = crate::ints::wrap_i32(app.mascot.layout.mascot_h);
    if outputs.len() == 0 {
        &&& x == crate::surface::outputs::pulled_in(
            at.0,
            0,
            crate::ints::wrap_i32(app.mascot.layout.surf_w),
            w,
        )
        &&& y == crate::surface::outputs::pulled_in(
            at.1,
            0,
            crate::ints::wrap_i32(app.mascot.layout.surf_h),
            h,
        )
    } else {
        exists|i: int| #[trigger]
            crate::surface::outputs::hosts(outputs, at.0, at.1, i) && {
                &&& x == crate::surface::outputs::pulled_in(at.0, outputs[i].x as int, outputs[i].w as int, w)
                &&& y == crate::surface::outputs::pulled_in(at.1, outputs[i].y as int, outputs[i].h as int, h)
            }
    }
}

/// What letting a mascot come to rest needs of the machine's integers.
pub open spec fn drop_room(app: AppView, to: Option<(i32, i32)>, outputs: Seq<OutputRect>) -> bool {
    let at = dropped_at(app, to);
    let w = crate::ints::wrap_i32(app.mascot.layout.mascot_w);
    let h = crate::ints::wrap_i32(app.mascot.layout.mascot_h);
    &&& crate::surface::outputs::all_testable(outputs, at.0, at.1)
    &&& crate::surface::outputs::off_screen(outputs, at.0, at.1) ==> crate::surface::outputs::all_measurable(
        outputs,
        at.0,
        at.1,
    )
    &&& forall|i: int| #[trigger]
        crate::surface::outputs::hosts(outputs, at.0, at.1, i) ==> {
            let o = outputs[i];
            &&& crate::surface::outputs::fits_i32(at.0 - o.x)
            &&& crate::surface::outputs::fits_i32(at.1 - o.y)
            &&& crate::surface::outputs::fits_i32(o.x + o.w)
            &&& crate::surface::outputs::fits_i32(o.y + o.h)
            &&& crate::surface::outputs::fits_i32(o.x + o.w - w)
            &&& crate::surface::outputs::fits_i32(o.y + o.h - h)
        }
    &&& outputs.len() == 0 ==> {
        &&& crate::surface::outputs::fits_i32(crate::ints::wrap_i32(app.mascot.layout.surf_w) - w)
        &&& crate::surface::outputs::fits_i32(crate::ints::wrap_i32(app.mascot.layout.surf_h) - h)
    }
}

/// The shape to set when the cursor changes from one to another.
pub open spec fn new_shape(was: Cursor, is: Cursor) -> Option<Cursor> {
    if was == is {
        None
    } else {
        Some(is)
    }
}

/// How a pointer event over `hit` changes the state, and what it calls for.
pub open spec fn reacts(
    before: AppView,
    kind: PointerKind,
    pos: (i32, i32),
    hit: Hit,
    after: AppView,
    r: Reaction,
) -> bool {
    let dragging = before.drag is Dragging;
    let quiet = r.shape is None && !r.follow && r.focus is None && !r.redraw && !r.dropped && r.drop_at is None
        && !r.hides;
    match kind {
        PointerKind::Enter => {
            let cursor = crate::input::router::cursor_of(dragging, hit);
            &&& after == (AppView { cursor, ..before })
            &&& r.shape == new_shape(before.cursor, cursor)
            &&& !r.follow && r.focus is None && !r.redraw && !r.dropped && r.drop_at is None && !r.hides
        },
        PointerKind::Leave => {
            &&& after == (AppView {
                drag: if dragging {
                    before.drag
                } else {
                    Drag::Idle
                },
                clicks: Clicks { bubble_armed: false },
                cursor: Cursor::Default,
                ..before
            })
            &&& quiet
        },
        PointerKind::Motion => {
            let (drag, started) = before.drag.moved(pos);
            let cursor = if started {
                Cursor::Grabbing
            } else if dragging {
                before.cursor
            } else {
                crate::input::router::cursor_of(false, hit)
            };
            &&& after == (AppView {
                drag,
                cursor,
                hovering: if started {
                    false
                } else {
                    before.hovering
                },
                walking: if started {
                    before.can_walk()
                } else {
                    before.walking
                },
                ..before
            })
            &&& r.follow == started
            &&& r.shape == new_shape(before.cursor, cursor)
            &&& r.focus is None && !r.redraw && !r.dropped && r.drop_at is None && !r.hides
        },
        PointerKind::Press { button } => if button == BTN_LEFT {
            &&& after == (AppView {
                clicks: Clicks { bubble_armed: hit == Hit::Bubble },
                drag: if hit == Hit::Sprite {
                    Drag::Pressed { grab: pos, origin: (before.position.x, before.position.y), latest: pos }
                } else {
                    before.drag
                },
                ..before
            })
            &&& quiet
        } else if button == BTN_RIGHT {
            &&& after == (AppView { drag: Drag::Idle, clicks: Clicks { bubble_armed: false }, ..before })
            &&& r.hides
            &&& r.shape is None && !r.follow && r.focus is None && !r.redraw && !r.dropped && r.drop_at is None
        } else {
            after == before && quiet
        },
        PointerKind::Release { button } => if button == BTN_LEFT {
            let clicked = before.clicks.bubble_armed && hit == Hit::Bubble && before.alert.shown;
            let cursor = crate::input::router::cursor_of(false, hit);
            &&& after == (AppView {
                clicks: Clicks { bubble_armed: false },
                alert: if clicked {
                    before.alert.collapsed()
                } else {
                    before.alert
                },
                drag: Drag::Idle,
                cursor,
                ..before
            })
            &&& r.shape == new_shape(before.cursor, cursor)
            &&& !r.follow && !r.hides
            &&& r.redraw == clicked
            &&& match r.focus {
                Some(key) => clicked && key@ == (before.alert.slot->0).0.key,
                None => !clicked,
            }
            &&& r.dropped == dragging
            &&& match r.drop_at {
                Some((x, y)) => before.drag.target() == Some((x as int, y as int)),
                None => before.drag.target() is None,
            }
        } else {
            after == before && quiet
        },
        PointerKind::Axis => after == before && quiet,
    }
}

/// A click on the bubble, pressed and released inside it, asks for its session
/// once and takes the bubble away; it never moves the pet.
pub proof fn bubble_click_focuses_its_session(
    a: AppView,
    at: (i32, i32),
    b: AppView,
    pressed: Reaction,
    to: (i32, i32),
    c: AppView,
    released: Reaction,
)
    requires
        a.alert.wf(),
        a.alert.shown,
        a.drag == Drag::Idle,
        reacts(a, PointerKind::Press { button: BTN_LEFT }, at, Hit::Bubble, b, pressed),
        reacts(b, PointerKind::Release { button: BTN_LEFT }, to, Hit::Bubble, c, released),
    ensures
        pressed.focus is None,
        released.focus matches Some(key) && key@ == (a.alert.slot->0).0.key,
        !c.alert.shown,
        c.alert.dismissed == Some((a.alert.slot->0).0),
        !released.dropped,
        c.position == a.position,
        c.timeline == a.timeline,
{
}

/// A press on the sprite that never goes past the threshold is a click: the
/// pet stays where it is and nothing else happens.
pub proof fn sprite_click_moves_nothing(
    a: AppView,
    at: (i32, i32),
    b: AppView,
    pressed: Reaction,
    moved: (i32, i32),
    hit: Hit,
    c: AppView,
    motion: Reaction,
    d: AppView,
    released: Reaction,
)
    requires
        a.alert.wf(),
        reacts(a, PointerKind::Press { button: BTN_LEFT }, at, Hit::Sprite, b, pressed),
        !crate::input::drag::past_threshold(at, moved),
        reacts(b, PointerKind::Motion, moved, hit, c, motion),
        reacts(c, PointerKind::Release { button: BTN_LEFT }, moved, hit, d, released),
    ensures
        !motion.follow,
        !released.dropped,
        released.drop_at is None,
        released.focus is None,
        !released.redraw,
        d.position == a.position,
        d.alert == a.alert,
        d.drag == Drag::Idle,
{
}

/// Hiding twice is hiding once, and a hidden mascot is never drawn.
pub proof fn hidden_stays_hidden(a: AppView)
    ensures
        a.hid().hid() == a.hid(),
        a.hid().mascot.visibility != Visibility::Visible,
        !a.hid().mascot.configured,
        !a.hid().position.visible,
{
}

/// Hiding persists across restarts: a run that starts from the position that
/// another left behind is hidden exactly if that one was.
pub proof fn hiding_survives_a_restart(a: App)
    requires
        a.wf(),
    ensures
        start_position(Loaded::Global(a.position)) == a.position,
        start_visibility(Loaded::Global(a.position)) == Visibility::Hidden <==> a.mascot.visibility
            == Visibility::Hidden,
{
}

/// A dragged pet that turned walks that way until it turns again or is
/// dropped: however long that takes, its walk never settles.
pub proof fn walk_lasts(a: App, heading: Heading, now: u64, later: int)
    requires
        a.wf(),
        a.walking,
    ensures
        a@.walked(heading, now).timeline.advanced(later).current == heading.name(),
{
    let t = a@.timeline;
    if heading.name() == t.requested {
        crate::sprite::timeline::asked_loop_goes_on(t, later);
    } else {
        crate::sprite::timeline::looped_track_never_settles(t, heading.name(), now as int, later);
    }
}

/// The pet greets at most once per run.
pub proof fn greets_once(a: AppView, now: u64, later: u64)
    ensures
        a.welcomed(now).welcomed(later) == a.welcomed(now),
        a.welcomed(now).greeted,
{
}

/// What the agents do never disturbs a drag: the track stays, and once the pet
/// is dropped it shows the latest state.
pub proof fn drag_outlasts_snapshots(
    a: AppView,
    top: AgentState,
    alert: Option<crate::surface::bubble::Content>,
    now: u64,
)
    requires
        a.drag is Dragging,
    ensures
        a.snapshot_applied(top, alert, now).0.timeline == a.timeline,
        a.snapshot_applied(top, alert, now).0.drag == a.drag,
        a.snapshot_applied(top, alert, now).0.base_track() == crate::sprite::semantics::shown_track(top, a.pet),
        !a.snapshot_applied(top, alert, now).0.bubble_due(),
{
}

/// A command that is replayed is not carried out again.
pub proof fn replayed_control_is_ignored(a: AppView, control: Control)
    ensures
        a.controlled(control).0.controlled(control) == (a.controlled(control).0, None::<ControlCmd>),
{
}

/// Hovering fires on its edges only: staying on the sprite, or off it, changes
/// nothing more.
pub proof fn hover_fires_on_edges(a: AppView, over: bool, now: u64, later: u64)
    ensures
        a.hovered(over, now).0.hovered(over, later) == (a.hovered(over, now).0, false),
{
}

/// A track has art exactly if the pet has the track and some pixel of some of
/// its frames is visible on the sheet.
pub proof fn art_is_a_visible_pixel(app: &App, track: &str, yes: bool, k: int, x: int, y: int)
    requires
        app.wf(),
        call_ensures(App::track_has_art, (app, track), yes),
        0 <= k < app.pet.animations@[track@].frames.len(),
        0 <= x < app.sheet.width(),
        0 <= y < app.sheet.height(),
    ensures
        yes ==> app.pet.animations@.dom().contains(track@),
        app.pet.animations@.dom().contains(track@) && crate::sprite::sheet::pixel_visible(
            app.sheet.frames(),
            app.sheet.width() as int,
            app.pet.animations@[track@].frames[k].sprite_index,
            x,
            y,
        ) ==> yes,
        yes ==> exists|j: int, at: int, row: int|
            0 <= j < app.pet.animations@[track@].frames.len() && 0 <= at < app.sheet.width() && 0 <= row
                < app.sheet.height() && #[trigger] crate::sprite::sheet::pixel_visible(
                app.sheet.frames(),
                app.sheet.width() as int,
                app.pet.animations@[track@].frames[j].sprite_index,
                at,
                row,
            ),
{
    let frames = app.sheet.frames();
    let w = app.sheet.width() as int;
    let track_frames = app.pet.animations@[track@].frames;
    let sprites = track_frames.map_values(|f: crate::sprite::animation::Frame| f.sprite_index);
    if crate::sprite::sheet::pixel_visible(frames, w, track_frames[k].sprite_index, x, y) {
        assert(sprites[k] == track_frames[k].sprite_index);
        assert(crate::sprite::sheet::row_visible(frames[sprites[k] as int], w, y));
        assert(crate::sprite::sheet::row_visible_in(frames, w, sprites, y));
    }
    if yes {
        let row = choose|row: int|
            0 <= row < app.sheet.height() && #[trigger] crate::sprite::sheet::row_visible_in(frames, w, sprites, row);
        crate::sprite::sheet::lemma_row_has_pixel(frames, w, sprites, row);
        let (j, at) = choose|j: int, at: int|
            0 <= j < sprites.len() && 0 <= at < w && #[trigger] crate::sprite::sheet::pixel_visible(
                frames,
                w,
                sprites[j],
                at,
                row,
            );
        assert(sprites[j] == track_frames[j].sprite_index);
        assert(crate::sprite::sheet::pixel_visible(frames, w, track_frames[j].sprite_index, at, row));
    }
}

/// The pet shows what the agents do: a new top state turns it to that state's
/// track at once, unless it is being dragged, and the state is remembered
/// either way; the same state again leaves it alone.
pub proof fn the_pet_shows_the_top_state(
    a: AppView,
    top: AgentState,
    alert: Option<crate::surface::bubble::Content>,
    now: u64,
)
    requires
        a.timeline.wf(),
        a.timeline.animations == a.pet.animations@,
    ensures
        ({
            let (b, changed) = a.snapshot_applied(top, alert, now);
            let track = crate::proto::track_of(top);
            &&& b.last_state == top
            &&& top == a.last_state || a.drag is Dragging ==> b.timeline == a.timeline
            &&& top != a.last_state ==> changed
            &&& top != a.last_state && !(a.drag is Dragging) && a.pet.animations@.dom().contains(track) && track
                != a.timeline.requested ==> b.timeline.current == track
            &&& top != a.last_state && !(a.drag is Dragging) && !a.pet.animations@.dom().contains(track)
                && a.timeline.requested != "idle"@ ==> b.timeline.current == "idle"@
            &&& b.position == a.position && b.mascot == a.mascot && b.drag == a.drag && b.greeted == a.greeted
            &&& changed <==> top != a.last_state || crate::surface::bubble::on_screen(a.alert)
                != crate::surface::bubble::on_screen(b.alert) || a.alert.applied(alert, now).1
        }),
{
}

/// A fresh command is carried out, whatever it is, and its number remembered; a
/// number that was seen last carries nothing out.
pub proof fn fresh_commands_are_carried_out(a: AppView, control: Control)
    ensures
        control.seq != a.last_control_seq ==> a.controlled(control).1 == control.cmd,
        control.seq == a.last_control_seq ==> a.controlled(control).1 is None,
        a.controlled(control).0.last_control_seq == control.seq,
        a.controlled(control).0.timeline == a.timeline,
        a.controlled(control).0.mascot == a.mascot,
        a.controlled(control).0.position == a.position,
{
}

/// The first time that it is seen the pet waves, where nothing is pending and
/// it has the art; never again after that.
pub proof fn the_pet_waves_when_it_is_first_seen(a: AppView, now: u64)
    requires
        a.timeline.wf(),
        a.timeline.animations == a.pet.animations@,
    ensures
        a.welcomed(now).greeted,
        a.greeted || a.last_state != AgentState::Idle || !a.has_art("waving"@) ==> a.welcomed(now).timeline
            == a.timeline,
        !a.greeted && a.last_state == AgentState::Idle && a.has_art("waving"@) && a.timeline.requested != "waving"@
            ==> a.welcomed(now).timeline.current == "waving"@,
        a.welcomed(now).mascot == a.mascot,
        a.welcomed(now).position == a.position,
{
}

/// A pet with the art jumps when the pointer comes over it and goes back to what
/// the agents do when it leaves; while it is dragged it does neither.
pub proof fn the_pet_jumps_under_the_pointer(a: AppView, now: u64)
    requires
        a.timeline.wf(),
        a.timeline.animations == a.pet.animations@,
    ensures
        !a.hovering && !(a.drag is Dragging) && a.has_art("jumping"@) && a.timeline.requested != "jumping"@
            ==> a.hovered(true, now).0.timeline.current == "jumping"@ && a.hovered(true, now).0.hovering && a.hovered(
            true,
            now,
        ).1,
        !a.hovering && (a.drag is Dragging || !a.has_art("jumping"@)) ==> a.hovered(true, now) == (a, false),
        a.hovering ==> !a.hovered(false, now).0.hovering && a.hovered(false, now).1 && a.hovered(
            false,
            now,
        ).0.timeline == a.timeline.state_requested(a.base_track(), now as int),
        !a.hovering ==> a.hovered(false, now) == (a, false),
{
}

/// Hiding ends a drag, unmaps the surface and is remembered with the position,
/// which stays where it is.
pub proof fn hiding_keeps_the_place(a: AppView)
    ensures
        a.hid().mascot.visibility == Visibility::Hidden,
        !a.hid().mascot.configured,
        a.hid().drag == Drag::Idle,
        a.hid().position.x == a.position.x,
        a.hid().position.y == a.position.y,
        !a.hid().position.visible,
        a.hid().mascot.layout == a.mascot.layout,
        a.hid().timeline == a.timeline,
{
}

/// The loop wakes for whatever comes first: never within the next millisecond,
/// never later than the sprite's next frame (if that is not sooner), and gently
/// every 200 ms while there is no surface yet.
pub proof fn the_loop_wakes_in_time(app: &App, now_ns: u64, at_ns: u128)
    requires
        call_ensures(App::next_wakeup, (app, now_ns), at_ns),
    ensures
        !app.mascot.configured ==> at_ns == now_ns + 200_000_000,
        app.mascot.configured ==> at_ns >= now_ns + 1_000_000,
        app.mascot.configured ==> at_ns <= app@.timeline.deadline * 1_000_000 || at_ns == now_ns + 1_000_000,
        app.mascot.configured && !app@.alert.shown && app@.timeline.deadline * 1_000_000 >= now_ns + 1_000_000
            ==> at_ns == app@.timeline.deadline * 1_000_000,
{
}

/// Without a known place the pet sits in the bottom right corner, 24 pixels from
/// either edge.
pub proof fn default_place_is_off_the_edges(origin: int, room: int, size: u32)
    requires
        size <= i32::MAX,
    ensures
        corner(origin, room, size) + size + 24 == origin + room,
{
}

/// A dropped pet rests wholly on an output that it fits on, and exactly where
/// it was let go where that was so already.
pub proof fn dropped_pets_rest_on_an_output(
    app: AppView,
    to: Option<(i32, i32)>,
    outputs: Seq<OutputRect>,
    x: i32,
    y: i32,
)
    requires
        comes_to_rest(app, to, outputs, x, y),
        outputs.len() > 0,
        app.mascot.layout.mascot_w <= i32::MAX,
        app.mascot.layout.mascot_h <= i32::MAX,
        forall|k: int|
            0 <= k < outputs.len() ==> (#[trigger] outputs[k]).w >= app.mascot.layout.mascot_w && outputs[k].h
                >= app.mascot.layout.mascot_h,
    ensures
        exists|i: int|
            {
                let o = #[trigger] outputs[i];
                let (px, py) = match to {
                    Some(p) => (p.0 as int, p.1 as int),
                    None => (app.position.x as int, app.position.y as int),
                };
                &&& 0 <= i < outputs.len()
                &&& o.x <= x && x + app.mascot.layout.mascot_w <= o.x + o.w
                &&& o.y <= y && y + app.mascot.layout.mascot_h <= o.y + o.h
                &&& o.x <= px && px + app.mascot.layout.mascot_w <= o.x + o.w ==> x == px
                &&& o.y <= py && py + app.mascot.layout.mascot_h <= o.y + o.h ==> y == py
            },
{
    let at = dropped_at(app, to);
    let w = crate::ints::wrap_i32(app.mascot.layout.mascot_w);
    let h = crate::ints::wrap_i32(app.mascot.layout.mascot_h);
    let i = choose|i: int| #[trigger]
        crate::surface::outputs::hosts(outputs, at.0, at.1, i) && x == crate::surface::outputs::pulled_in(
            at.0,
            outputs[i].x as int,
            outputs[i].w as int,
            w,
        ) && y == crate::surface::outputs::pulled_in(at.1, outputs[i].y as int, outputs[i].h as int, h);
    let o = outputs[i];
    assert(o.w >= app.mascot.layout.mascot_w);
    crate::surface::outputs::clamping_keeps_the_sprite_inside(at.0, o.x as int, o.w as int, w);
    crate::surface::outputs::clamping_keeps_the_sprite_inside(at.1, o.y as int, o.h as int, h);
}

/// A pet walks the way it went: to the right where its place grew, to the left
/// where it shrank.
pub proof fn walks_go_the_way_of_the_drag(before: i32, after: i32, heading: Option<Heading>)
    requires
        call_ensures(turned, (before, after), heading),
    ensures
        after > before ==> (heading matches Some(h) && h.name() == "running-right"@),
        after < before ==> (heading matches Some(h) && h.name() == "running-left"@),
        after == before ==> heading is None,
{
}

/// A left press grabs the sprite where the pet is, arms a click on the bubble,
/// and elsewhere does neither; the right button hides the pet and ends both.
pub proof fn presses_grab_arm_or_hide(
    a: AppView,
    pos: (i32, i32),
    hit: Hit,
    b: AppView,
    left: Reaction,
    c: AppView,
    right: Reaction,
)
    requires
        reacts(a, PointerKind::Press { button: 0x110 }, pos, hit, b, left),
        reacts(a, PointerKind::Press { button: 0x111 }, pos, hit, c, right),
    ensures
        hit == Hit::Sprite ==> b.drag == (Drag::Pressed {
            grab: pos,
            origin: (a.position.x, a.position.y),
            latest: pos,
        }),
        hit != Hit::Sprite ==> b.drag == a.drag,
        b.clicks.bubble_armed <==> hit == Hit::Bubble,
        !left.hides && !left.follow && !left.dropped && left.focus is None && !left.redraw,
        right.hides,
        c.drag == Drag::Idle,
        !c.clicks.bubble_armed,
        !right.follow && !right.dropped && right.focus is None,
{
}

/// A motion that takes a press past four pixels starts the drag: the surface
/// follows from then on, under a closed hand, no hover goes on, and the pet
/// walks if it can; any other motion starts nothing.
pub proof fn far_motions_start_the_drag(
    a: AppView,
    grab: (i32, i32),
    origin: (i32, i32),
    latest: (i32, i32),
    pos: (i32, i32),
    hit: Hit,
    b: AppView,
    r: Reaction,
)
    requires
        a.drag == (Drag::Pressed { grab, origin, latest }),
        reacts(a, PointerKind::Motion, pos, hit, b, r),
    ensures
        ({
            let dx = pos.0 - grab.0;
            let dy = pos.1 - grab.1;
            let far = dx * dx + dy * dy > 1024 * 1024;
            &&& r.follow <==> far
            &&& b.drag is Dragging <==> far
            &&& far ==> b.cursor == Cursor::Grabbing && !b.hovering && (b.walking <==> a.can_walk())
            &&& !far ==> b.walking == a.walking && b.hovering == a.hovering
            &&& r.shape is Some <==> b.cursor != a.cursor
            &&& r.shape is Some ==> r.shape == Some(b.cursor)
            &&& b.position == a.position && b.timeline == a.timeline && b.mascot == a.mascot && b.alert == a.alert
        }),
{
}

/// Letting go of a drag drops the pet where the last motion takes it; leaving
/// the surface neither ends a drag nor keeps a click armed.
pub proof fn drags_end_with_the_button(
    a: AppView,
    pos: (i32, i32),
    hit: Hit,
    b: AppView,
    released: Reaction,
    c: AppView,
    gone: Reaction,
)
    requires
        reacts(a, PointerKind::Release { button: 0x110 }, pos, hit, b, released),
        reacts(a, PointerKind::Leave, pos, hit, c, gone),
    ensures
        b.drag == Drag::Idle,
        released.dropped <==> a.drag is Dragging,
        a.drag matches Drag::Dragging { grab, applied, latest } ==> released.drop_at is Some && {
            let (x, y) = released.drop_at->0;
            &&& -128 <= 256 * (x - applied.0) - (latest.0 - grab.0) <= 128
            &&& -128 <= 256 * (y - applied.1) - (latest.1 - grab.1) <= 128
        },
        !(a.drag is Dragging) ==> released.drop_at is None,
        !b.clicks.bubble_armed,
        released.focus is Some ==> a.clicks.bubble_armed && hit == Hit::Bubble && a.alert.shown,
        a.drag is Dragging ==> c.drag == a.drag,
        !(a.drag is Dragging) ==> c.drag == Drag::Idle,
        !c.clicks.bubble_armed,
        c.cursor == Cursor::Default,
        !gone.dropped && gone.focus is None && !gone.hides && !gone.follow && gone.shape is None,
{
    if let Drag::Dragging { grab, applied, latest } = a.drag {
        crate::input::drag::distances_round_to_the_nearest_pixel(latest.0 - grab.0);
        crate::input::drag::distances_round_to_the_nearest_pixel(latest.1 - grab.1);
    }
}

/// The pointer alone never moves the pet, turns its animation, maps its surface
/// or changes what the agents do; and wheels and other buttons do nothing.
pub proof fn the_pointer_leaves_the_rest_alone(
    a: AppView,
    kind: PointerKind,
    pos: (i32, i32),
    hit: Hit,
    b: AppView,
    r: Reaction,
)
    requires
        reacts(a, kind, pos, hit, b, r),
    ensures
        b.position == a.position,
        b.timeline == a.timeline,
        b.mascot == a.mascot,
        b.last_state == a.last_state,
        b.greeted == a.greeted,
        b.last_control_seq == a.last_control_seq,
        kind is Axis ==> b == a,
        kind matches PointerKind::Press { button } ==> (button != 0x110 && button != 0x111 ==> b == a && !r.hides),
        kind matches PointerKind::Release { button } ==> (button != 0x110 ==> b == a && !r.dropped),
        r.hides <==> kind == (PointerKind::Press { button: 0x111 }),
        kind is Enter ==> b.drag == a.drag && b.clicks == a.clicks && b.alert == a.alert,
{
}

/// The cursor's shape is asked for exactly when it becomes another.
pub proof fn shapes_are_asked_for_on_change(a: AppView, pos: (i32, i32), hit: Hit, b: AppView, r: Reaction)
    requires
        reacts(a, PointerKind::Enter, pos, hit, b, r),
    ensures
        r.shape is Some <==> b.cursor != a.cursor,
        r.shape is Some ==> r.shape == Some(b.cursor),
        a.drag is Dragging <==> b.cursor == Cursor::Grabbing,
        !(a.drag is Dragging) && hit == Hit::Bubble ==> b.cursor == Cursor::Pointer,
        !(a.drag is Dragging) && hit == Hit::Sprite ==> b.cursor == Cursor::Grab,
        !(a.drag is Dragging) && hit == Hit::Outside ==> b.cursor == Cursor::Default,
{
}

/// A pet is enlarged as was asked, from once to eight times, and by itself to
/// come near its natural height.
pub proof fn pets_are_enlarged_as_asked(pet: PetDef, wanted: u32)
    ensures
        1 <= scale_of(pet, Some(wanted)) <= 8,
        1 <= wanted <= 8 ==> scale_of(pet, Some(wanted)) == wanted,
        scale_of(pet, None) == crate::compose::natural_scale(pet.frame_height as int),
{
}

/// A run starts where the last one ended, visible or not as that was; without a
/// file the pet is visible.
pub proof fn runs_start_as_the_file_says(p: Position, l: LegacyPosition)
    ensures
        start_position(Loaded::Global(p)) == p,
        start_position(Loaded::Legacy(l)).visible == l.visible,
        start_position(Loaded::Missing).visible,
        start_visibility(Loaded::Global(p)) == Visibility::Hidden <==> !p.visible,
        start_visibility(Loaded::Legacy(l)) == Visibility::Hidden <==> !l.visible,
        start_visibility(Loaded::Missing) == Visibility::Remapping,
{
}

/// A bubble is due exactly while an alert is up and the pet is not on the move.
pub proof fn bubbles_wait_for_the_drag_to_end(a: AppView)
    ensures
        a.bubble_due() <==> a.alert.shown && !(a.drag is Dragging),
{
}

/// While a bubble is being typed the loop wakes for its next characters too, at
/// most 90 ms on.
pub proof fn the_loop_wakes_for_the_typewriter(
    app: &App,
    now_ns: u64,
    at_ns: u128,
    content: crate::surface::bubble::Content,
    started: u64,
)
    requires
        call_ensures(App::next_wakeup, (app, now_ns), at_ns),
        app.mascot.configured,
        app@.alert.shown,
        app@.alert.slot == Some((content, started)),
        started <= now_ns / 1_000_000,
        now_ns / 1_000_000 < started + 30 * content.body.len(),
    ensures
        at_ns <= now_ns + 90 * 1_000_000,
{
    let now = (now_ns / NANOS_PER_MS) as u64;
    let e = crate::surface::bubble::elapsed(started, now);
    let total = content.body.len() as int;
    assert(e / 30 < total);
    assert(app.typing(now));
    let q = e / 90;
    assert((q + 1) * 90 == q * 90 + 90);
    assert(now * 1_000_000 <= now_ns);
}

/// A pet that is let go on an output rests on that one, the first in the list
/// that has the point, pulled in where it sticks out.
pub proof fn dropped_pets_rest_where_they_are_let_go(
    app: AppView,
    at: (i32, i32),
    outputs: Seq<OutputRect>,
    x: i32,
    y: i32,
    k: int,
)
    requires
        comes_to_rest(app, Some(at), outputs, x, y),
        0 <= k < outputs.len(),
        outputs[k].x <= at.0 < outputs[k].x + outputs[k].w,
        outputs[k].y <= at.1 < outputs[k].y + outputs[k].h,
        forall|j: int| 0 <= j < k ==> !(#[trigger] outputs[j]).holds(at.0 as int, at.1 as int),
        app.mascot.layout.mascot_w <= outputs[k].w,
        app.mascot.layout.mascot_h <= outputs[k].h,
    ensures
        ({
            let o = outputs[k];
            let (w, h) = (app.mascot.layout.mascot_w as int, app.mascot.layout.mascot_h as int);
            &&& at.0 + w <= o.x + o.w ==> x == at.0
            &&& at.0 + w > o.x + o.w ==> x + w == o.x + o.w
            &&& at.1 + h <= o.y + o.h ==> y == at.1
            &&& at.1 + h > o.y + o.h ==> y + h == o.y + o.h
        }),
{
    let p = dropped_at(app, Some(at));
    assert(outputs[k].holds(p.0, p.1));
    assert(crate::surface::outputs::first_holding(outputs, p.0, p.1, k));
    assert(crate::surface::outputs::hosts(outputs, p.0, p.1, k));
    assert forall|i: int| #[trigger] crate::surface::outputs::hosts(outputs, p.0, p.1, i) implies i == k by {
        crate::surface::outputs::host_is_unique(outputs, p.0, p.1, i, k);
    }
}

} // verus!
