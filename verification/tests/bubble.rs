use pet_render::proto::{AgentState, SessionKey, SessionView, Snapshot, Source};
use pet_render::surface::bubble::{
    alert_for, box_rows, zone_height, AlertBubble, Bubble, BubbleArea,
};

fn view(state: AgentState, body: Option<&str>) -> SessionView {
    SessionView {
        key: SessionKey::new(Source::Claude, "s1"),
        state,
        since: 0,
        seen: false,
        focused: false,
        body: body.map(String::from),
        subtitle: None,
    }
}

fn snap(top: AgentState, sessions: Vec<SessionView>) -> Snapshot {
    Snapshot { top, sessions, unread: 0, at: 0 }
}

#[test]
fn alerts_only_for_alert_states_with_bodies() {
    let s = snap(
        AgentState::Waiting,
        vec![view(AgentState::Waiting, Some("Approve tool?"))],
    );
    let (key, label, body) = alert_for(&s).unwrap();
    assert_eq!(key.session, "s1");
    assert_eq!(label, "Needs input");
    assert_eq!(body, "Approve tool?");

    // Running is not an alert even with a body.
    assert!(alert_for(&snap(
        AgentState::Running,
        vec![view(AgentState::Running, Some("thinking"))],
    ))
    .is_none());
    // Alert state without a body: no bubble.
    assert!(alert_for(&snap(
        AgentState::Failed,
        vec![view(AgentState::Failed, None)],
    ))
    .is_none());
    // Whitespace body: no bubble.
    assert!(alert_for(&snap(
        AgentState::Failed,
        vec![view(AgentState::Failed, Some("  "))],
    ))
    .is_none());
}

#[test]
fn alert_picks_the_top_priority_session() {
    let s = snap(
        AgentState::Failed,
        vec![
            view(AgentState::Waiting, Some("other")),
            view(AgentState::Failed, Some("crashed")),
        ],
    );
    assert_eq!(alert_for(&s).unwrap().2, "crashed");
}

#[test]
fn typewriter_reveals_at_30ms_per_char() {
    let b = Bubble::new(
        SessionKey::new(Source::Claude, "s"),
        "Needs input",
        "héllo".into(), // 5 chars, 6 bytes
        1000,
    );
    assert_eq!(b.visible_chars(1000), 0);
    assert_eq!(b.visible_chars(1029), 0);
    assert_eq!(b.visible_chars(1030), 1);
    assert_eq!(b.visible_chars(1090), 3);
    assert_eq!(b.visible_chars(9999), 5);
    // Byte cutoffs respect the multibyte é.
    assert_eq!(b.visible_bytes(1030), 1);
    assert_eq!(b.visible_bytes(1060), 3); // h + é(2 bytes)
    assert_eq!(b.visible_bytes(9999), 6);
}

#[test]
fn typing_deadlines_step_then_stop() {
    let b = Bubble::new(
        SessionKey::new(Source::Claude, "s"),
        "Blocked",
        "ab".into(),
        0,
    );
    assert_eq!(b.typing_deadline_ms(0), Some(90));
    assert_eq!(b.typing_deadline_ms(30), Some(90));
    assert_eq!(b.typing_deadline_ms(59), Some(90));
    assert_eq!(b.typing_deadline_ms(60), None);
    // Time never runs backwards past the start.
    let late = Bubble::new(SessionKey::new(Source::Claude, "s"), "x", "ab".into(), 100);
    assert_eq!(late.typing_deadline_ms(0), Some(190));
}

#[test]
fn empty_body_is_instantly_done() {
    let b = Bubble::new(
        SessionKey::new(Source::Claude, "s"),
        "Ready",
        String::new(),
        0,
    );
    assert_eq!(b.typing_deadline_ms(0), None);
    assert_eq!(b.visible_bytes(0), 0);
}

#[test]
fn reveal_progress_is_keyed_on_content_identity_only() {
    let body = "Approve the deploy to staging?";
    let alert_snap = |since: i64, noise: bool| {
        let mut sessions = vec![SessionView {
            since,
            ..view(AgentState::Waiting, Some(body))
        }];
        if noise {
            // Unrelated churn: another session, different unread count.
            sessions.push(SessionView {
                key: SessionKey::new(Source::Codex, "other"),
                ..view(AgentState::Running, Some("busy"))
            });
        }
        Snapshot {
            unread: if noise { 7 } else { 1 },
            at: since,
            ..snap(AgentState::Waiting, sessions)
        }
    };

    let mut alert = AlertBubble::default();
    assert!(alert.apply(&alert_snap(100, false), 0)); // appears
    assert_eq!(alert.visible().unwrap().visible_chars(90), 3);

    // Heartbeat refresh: same triple, new since/deadline/noise. The
    // reveal keeps its start; nothing visually changes.
    assert!(!alert.apply(&alert_snap(999, true), 90));
    assert_eq!(alert.visible().unwrap().visible_chars(90), 3);

    // Transient clear (e.g. waiting -> running heartbeat around a
    // permission prompt), then the same content returns: progress
    // resumes monotonically, never resets. (Track switches and the
    // 3x-then-idle settle live in Timeline and cannot touch this state;
    // hide/show keeps `AlertBubble` untouched the same way.)
    assert!(alert.apply(&snap(AgentState::Running, vec![]), 120)); // hidden
    assert!(alert.visible().is_none());
    assert!(alert.apply(&alert_snap(2000, true), 150)); // reshown
    assert_eq!(alert.visible().unwrap().visible_chars(150), 5);

    // Fully revealed stays fully revealed for identical content.
    let total = body.chars().count();
    assert_eq!(alert.visible().unwrap().visible_chars(100_000), total);
    assert!(!alert.apply(&alert_snap(3000, false), 100_000));
    assert_eq!(alert.visible().unwrap().visible_chars(100_000), total);

    // A changed body re-types from zero, exactly once.
    let changed = snap(
        AgentState::Waiting,
        vec![view(AgentState::Waiting, Some("Different question"))],
    );
    assert!(alert.apply(&changed, 100_000));
    assert_eq!(alert.visible().unwrap().visible_chars(100_000), 0);
    assert!(!alert.apply(&changed, 100_030));
    assert_eq!(alert.visible().unwrap().visible_chars(100_030), 1);
}

#[test]
fn label_change_with_same_body_re_types() {
    let mut alert = AlertBubble::default();
    let waiting = snap(
        AgentState::Waiting,
        vec![view(AgentState::Waiting, Some("same text"))],
    );
    let failed = snap(
        AgentState::Failed,
        vec![view(AgentState::Failed, Some("same text"))],
    );
    assert!(alert.apply(&waiting, 0));
    assert_eq!(alert.visible().unwrap().visible_chars(300), 9); // done
    assert!(alert.apply(&failed, 300));
    assert_eq!(alert.visible().unwrap().visible_chars(300), 0);
}

#[test]
fn click_dismisses_current_triple_and_identical_snapshots_stay_hidden() {
    let mut alert = AlertBubble::default();
    // A `waiting` alert that never changes state on click.
    let waiting = snap(
        AgentState::Waiting,
        vec![view(AgentState::Waiting, Some("Approve tool?"))],
    );
    assert!(alert.apply(&waiting, 0));
    assert!(alert.visible().is_some());

    // Click -> collapse immediately (redraw due).
    assert!(alert.dismiss_current());
    assert!(alert.visible().is_none());
    // Dismissing again (nothing visible) is a no-op.
    assert!(!alert.dismiss_current());

    // Identical snapshot heartbeats keep it hidden and report no change.
    assert!(!alert.apply(&waiting, 50));
    assert!(alert.visible().is_none());
    assert!(!alert.apply(&waiting, 999));
    assert!(alert.visible().is_none());
}

#[test]
fn dismissal_lifts_when_the_alert_content_genuinely_changes() {
    let mut alert = AlertBubble::default();
    let waiting = snap(
        AgentState::Waiting,
        vec![view(AgentState::Waiting, Some("Approve tool?"))],
    );
    alert.apply(&waiting, 0);
    alert.dismiss_current();
    assert!(alert.visible().is_none());

    // Same session, new body text -> new triple -> bubble returns, fresh.
    let new_body = snap(
        AgentState::Waiting,
        vec![view(AgentState::Waiting, Some("Approve a DIFFERENT tool?"))],
    );
    assert!(alert.apply(&new_body, 100));
    let b = alert.visible().expect("new content re-shows");
    assert_eq!(b.visible_chars(100), 0); // types fresh

    // Dismiss again, then the same session transitions state (new label).
    alert.dismiss_current();
    assert!(alert.visible().is_none());
    let ready = snap(
        AgentState::Ready,
        vec![view(AgentState::Ready, Some("Approve a DIFFERENT tool?"))],
    );
    assert!(alert.apply(&ready, 200));
    assert!(alert.visible().is_some()); // waiting->ready is new info
}

#[test]
fn dismissal_does_not_leak_across_sessions() {
    let mut alert = AlertBubble::default();
    alert.apply(
        &snap(
            AgentState::Waiting,
            vec![view(AgentState::Waiting, Some("same text"))],
        ),
        0,
    );
    alert.dismiss_current();

    // A DIFFERENT session with identical label+body is still new info.
    let other = SessionView {
        key: SessionKey::new(Source::Codex, "s2"),
        ..view(AgentState::Waiting, Some("same text"))
    };
    assert!(alert.apply(&snap(AgentState::Waiting, vec![other]), 100));
    assert!(alert.visible().is_some());
}

#[test]
fn a_returning_identical_alert_after_a_transient_clear_stays_dismissed() {
    let mut alert = AlertBubble::default();
    let waiting = snap(
        AgentState::Waiting,
        vec![view(AgentState::Waiting, Some("Approve tool?"))],
    );
    alert.apply(&waiting, 0);
    alert.dismiss_current();

    // Focus flickers away (running heartbeat) then the SAME waiting alert
    // returns: it must remain dismissed (the triple is unchanged).
    assert!(!alert.apply(&snap(AgentState::Running, vec![]), 50));
    assert!(!alert.apply(&waiting, 100));
    assert!(alert.visible().is_none());
}

#[test]
fn following_the_deadlines_reveals_everything() {
    let b = Bubble::new(SessionKey::new(Source::Other, "s"), "Ready", "0123456789".into(), 17);
    let mut now = 17;
    let mut shown = vec![b.visible_chars(now)];
    while let Some(t) = b.typing_deadline_ms(now) {
        assert!(t > now && t <= now + 90 && (t - 17) % 90 == 0);
        now = t;
        shown.push(b.visible_chars(now));
    }
    assert_eq!(shown, vec![0, 3, 6, 9, 10]);
}

#[test]
fn blank_bodies_of_any_white_space_say_nothing() {
    let s = snap(
        AgentState::Ready,
        vec![view(AgentState::Ready, Some("\u{3000}\n\u{a0}\t"))],
    );
    assert!(alert_for(&s).is_none());
    // Only the first session in the top state is asked.
    let two = snap(
        AgentState::Ready,
        vec![view(AgentState::Ready, None), view(AgentState::Ready, Some("later"))],
    );
    assert!(alert_for(&two).is_none());
    assert_eq!(AgentState::Failed.label(), "Blocked");
}

fn area(above: bool) -> BubbleArea {
    BubbleArea {
        canvas_w: 560,
        canvas_h: 616,
        sprite_x: 0,
        sprite_w: 384,
        content_top: 240,
        content_bottom: 380,
        above,
        anchor_right: true,
        scale: 2,
    }
}

#[test]
fn bubble_keeps_its_gap_within_the_zone() {
    assert_eq!(zone_height(), 100);
    // Two body lines at scale 2: 2 * (20 + 54) = 148 high, gap 16.
    assert_eq!(box_rows(&area(true), 2), (240 - 16 - 148, 148));
    assert_eq!(box_rows(&area(false), 2), (396, 148));
    // No room: pulled onto the canvas.
    let low = BubbleArea { content_top: 100, ..area(true) };
    assert_eq!(box_rows(&low, 3), (0, 184));
    let high = BubbleArea { content_bottom: 600, ..area(false) };
    assert_eq!(box_rows(&high, 3), (616 - 184, 184));
}
