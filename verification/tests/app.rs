use pet_render::app::{turned, App, Heading, PointerKind, Shown, BTN_LEFT, BTN_RIGHT};
use pet_render::input::drag::Drag;
use pet_render::input::router::Cursor;
use pet_render::proto::{AgentState, SessionKey, SessionView, Snapshot, Source};
use pet_render::sprite::pet_json::{FrameSpec, PetDef, PetFile};
use pet_render::sprite::sheet::Sheet;
use pet_render::supervisor::{Control, ControlCmd};
use pet_render::surface::bubble::box_rows;
use pet_render::surface::mascot::Configured;
use pet_render::surface::outputs::OutputRect;
use pet_render::surface::position::{LegacyPosition, Loaded, Position};
use pet_render::surface::visibility::Visibility;

/// A pet of 64 px cells on the canonical grid; `inked` rows have art.
fn app_with(inked: &[u32], loaded: Loaded) -> App {
    let file = PetFile {
        id: None,
        sprite_version: None,
        spritesheet_path: None,
        frame: Some(FrameSpec { width: 64, height: 64, columns: 8, rows: 9 }),
        animations: vec![],
    };
    let pet = PetDef::parse(&file, "/p", "p").unwrap();
    let (w, h) = (512u32, 576u32);
    let mut rgba = vec![0u8; (w * h * 4) as usize];
    for row in inked {
        for y in row * 64 + 32..row * 64 + 64 {
            for x in 0..w {
                rgba[((y * w + x) * 4 + 3) as usize] = 255;
            }
        }
    }
    let sheet = Sheet::from_rgba(&rgba, w, h, 64, 64).unwrap();
    App::new(pet, sheet, loaded, None, 7)
}

fn app() -> App {
    app_with(&[0, 3, 4, 6, 7], Loaded::Global(Position { x: 1000, y: 500, visible: true }))
}

fn snap(top: AgentState, body: Option<&str>) -> Snapshot {
    Snapshot {
        top,
        sessions: vec![SessionView {
            key: SessionKey::new(Source::Codex, "s1"),
            state: top,
            since: 0,
            seen: false,
            focused: false,
            body: body.map(String::from),
            subtitle: None,
        }],
        unread: 0,
        at: 0,
    }
}

fn screen() -> Vec<OutputRect> {
    vec![OutputRect { name: "DP-1".into(), x: 0, y: 0, w: 1920, h: 1080 }]
}

#[test]
fn a_run_starts_idle_at_the_persisted_place() {
    let a = app();
    assert_eq!(a.timeline.current_track(), "idle");
    assert_eq!((a.mascot.layout.mascot_w, a.mascot.sprite_scale), (128, 2));
    // The sheet has every cell that the pet counts.
    assert_eq!(a.sheet.frame_count(), a.pet.frame_count());
    a.pet.validate_sheet(512, 576).unwrap();
    assert_eq!(a.mascot.visibility, Visibility::Remapping);
    assert!(a.position_initialized);
    let hidden = app_with(&[0], Loaded::Global(Position { x: 0, y: 0, visible: false }));
    assert_eq!(hidden.mascot.visibility, Visibility::Hidden);
    assert!(!app_with(&[0], Loaded::Missing).position_initialized);
}

#[test]
fn snapshots_turn_the_track_and_the_bubble() {
    let mut a = app();
    assert!(a.apply_snapshot(&snap(AgentState::Waiting, Some("hey")), 10));
    assert_eq!(a.timeline.current_track(), "waiting");
    assert!(a.alert.visible().is_some());
    assert!(!a.apply_snapshot(&snap(AgentState::Waiting, Some("hey")), 20));
    assert!(a.apply_snapshot(&snap(AgentState::Running, None), 30));
    assert_eq!(a.timeline.current_track(), "running");
}

#[test]
fn snapshots_do_not_disturb_a_drag() {
    let mut a = app();
    a.drag = Drag::Dragging { grab: (0, 0), applied: (1000, 500), latest: (0, 0) };
    assert!(a.apply_snapshot(&snap(AgentState::Running, None), 10));
    assert_eq!(a.timeline.current_track(), "idle");
    a.drag_drop(Some((1900, 1070)), &screen(), 20);
    // Clamped on screen, and back to the state that came in meanwhile.
    assert_eq!((a.position.x, a.position.y), (1792, 952));
    assert_eq!(a.timeline.current_track(), "running");
}

#[test]
fn controls_are_not_replayed() {
    let mut a = app();
    let stale = Control { seq: 7, cmd: Some(ControlCmd::Hide) };
    assert_eq!(a.apply_control(stale), None);
    let fresh = Control { seq: 8, cmd: Some(ControlCmd::Hide) };
    assert_eq!(a.apply_control(fresh), Some(ControlCmd::Hide));
    assert_eq!(a.apply_control(fresh), None);
}

#[test]
fn blank_tracks_have_no_art() {
    let a = app();
    assert!(a.track_has_art("waving"));
    assert!(!a.track_has_art("running-left"));
    assert!(!a.track_has_art("nothing"));
}

#[test]
fn first_reveal_greets_once() {
    let mut a = app();
    assert_eq!(a.configure(5), Configured::Revealed);
    assert_eq!(a.timeline.current_track(), "waving");
    a.timeline.request_state("idle", 10);
    a.maybe_greet(20);
    assert_eq!(a.timeline.current_track(), "idle");
    // Something pending: no wave, and none later.
    let mut busy = app();
    busy.apply_snapshot(&snap(AgentState::Running, None), 0);
    busy.configure(5);
    assert_eq!(busy.timeline.current_track(), "running");
    assert!(busy.greeted);
    // No art: no wave.
    let mut plain = app_with(&[0], Loaded::Missing);
    plain.configure(5);
    assert_eq!(plain.timeline.current_track(), "idle");
}

#[test]
fn hovering_jumps_and_returns() {
    let mut a = app();
    assert!(a.set_hover(true, 10));
    assert_eq!(a.timeline.current_track(), "jumping");
    assert!(!a.set_hover(true, 20));
    assert!(a.set_hover(false, 30));
    assert_eq!(a.timeline.current_track(), "idle");
    assert!(!app_with(&[0], Loaded::Missing).set_hover(true, 10));
}

#[test]
fn frames_are_drawn_only_on_a_visible_surface() {
    let mut a = app();
    assert_eq!(a.begin_frame(0), None);
    a.configure(0);
    a.timeline.request_state("idle", 0);
    let geo = a.begin_frame(1680).unwrap();
    assert_eq!(a.timeline.sprite_index(), 1);
    let (w, h) = geo.buf_size();
    assert_eq!((w, h), (280, 228));
    let mut buf = vec![1u8; (w * h * 4) as usize];
    assert_eq!(a.draw(&mut buf, &geo), None);
    assert_eq!(buf.iter().filter(|b| **b == 255).count(), 128 * 64);
    a.apply_snapshot(&snap(AgentState::Waiting, Some("hey")), 1700);
    let area = a.draw(&mut buf, &geo).unwrap();
    assert_eq!((area.content_top, area.content_bottom), (164, 228));
    assert!(a.frame_drawn(Some((5, 6, 70, 80))).is_some());
    assert!(a.frame_drawn(Some((5, 6, 70, 80))).is_none());
    // No bubble on the move.
    a.drag = Drag::Dragging { grab: (0, 0), applied: (0, 0), latest: (0, 0) };
    assert_eq!(a.draw(&mut buf, &geo), None);
    assert!(a.frame_drawn(None).is_none());
}

#[test]
fn the_earliest_deadline_wakes_the_loop() {
    const NS: u64 = 1_000_000;
    let ms: u128 = 1_000_000;
    let mut a = app();
    assert_eq!(a.next_wakeup(5 * NS), 205 * ms);
    a.mascot.configured = true;
    assert_eq!(a.next_wakeup(5 * NS), 1680 * ms);
    a.apply_snapshot(&snap(AgentState::Waiting, Some("some text")), 100);
    // "waiting" holds 150 ms; the typewriter ticks after 90.
    assert_eq!(a.next_wakeup(100 * NS), 190 * ms);
    // Overdue: not within the next millisecond.
    assert_eq!(a.next_wakeup(900 * NS), 901 * ms);
}

#[test]
fn default_place_is_the_bottom_right() {
    let mut a = app_with(&[0], Loaded::Missing);
    a.ensure_position(&[], None);
    assert!(!a.position_initialized);
    let outs = screen();
    a.ensure_position(&outs, Some(&outs[0]));
    assert_eq!((a.position.x, a.position.y), (1920 - 128 - 24, 1080 - 128 - 24));
    // Placed once.
    let other = OutputRect { name: "X".into(), x: 50, y: 50, w: 800, h: 600 };
    a.ensure_position(&outs, Some(&other));
    assert_eq!(a.position.x, 1768);
}

#[test]
fn older_positions_are_migrated_with_the_first_outputs() {
    let legacy = LegacyPosition {
        output_name: Some("DP-2".into()),
        margin_x: 10,
        margin_y: 20,
        visible: false,
    };
    let mut a = app_with(&[0], Loaded::Legacy(legacy));
    assert_eq!(a.mascot.visibility, Visibility::Hidden);
    a.ensure_position(&[], None);
    assert!(a.legacy.is_some());
    let outs = vec![
        OutputRect { name: "DP-1".into(), x: 0, y: 0, w: 100, h: 100 },
        OutputRect { name: "DP-2".into(), x: 100, y: 30, w: 100, h: 100 },
    ];
    a.ensure_position(&outs, Some(&outs[0]));
    assert_eq!(a.position, Position { x: 110, y: 50, visible: false });
    assert!(a.position_initialized && a.legacy.is_none());
}

#[test]
fn layout_follows_the_position_but_not_mid_drag() {
    let mut a = app();
    let p = a.sync_layout((10, 10)).unwrap();
    assert_eq!((p.top, p.left), (10, 10));
    assert_eq!(p.input, vec![a.mascot.sprite_rect()]);
    a.drag = Drag::Dragging { grab: (0, 0), applied: (0, 0), latest: (0, 0) };
    assert!(a.sync_layout((900, 900)).is_none());
    assert_eq!(a.mascot.layout.mascot_x, 0);
}

#[test]
fn hiding_persists_and_showing_maps_again() {
    let mut a = app();
    a.configure(0);
    assert!(a.hide_mascot());
    assert!(!a.hide_mascot());
    assert!(!a.position.visible && !a.mascot.configured);
    assert_eq!(a.show_mascot((1000, 500), 10), Shown::Remap { top: 400, left: 848 });
    assert!(a.position.visible);
    assert_eq!(a.configure(20), Configured::Revealed);
    assert_eq!(a.show_mascot((1000, 500), 30), Shown::Already);
    // Hidden at startup, configured meanwhile: attach straight away.
    let mut b = app_with(&[0, 3], Loaded::Global(Position { x: 0, y: 0, visible: false }));
    assert_eq!(b.configure(0), Configured::Quiet);
    assert_eq!(b.show_mascot((0, 0), 5), Shown::Attach);
    assert_eq!(b.timeline.current_track(), "waving");
    assert!(b.mascot.visibility.shown());
}

/// A point of the sprite, and one of the bubble, in pointer coordinates.
const ON_SPRITE: (i32, i32) = (200 * 256, 150 * 256);
const ON_BUBBLE: (i32, i32) = (20 * 256, 20 * 256);

fn with_bubble() -> App {
    let mut a = app();
    a.apply_snapshot(&snap(AgentState::Waiting, Some("hey")), 0);
    a.frame_drawn(Some((10, 10, 60, 40)));
    a
}

#[test]
fn dragging_moves_the_pet_by_frame_callbacks() {
    let mut a = app();
    let (x, y) = ON_SPRITE;
    let press = a.pointer(PointerKind::Press { button: BTN_LEFT }, (x, y));
    assert!(!press.follow && press.shape.is_none());
    assert!(!a.pointer(PointerKind::Motion, (x + 512, y)).follow);
    a.hovering = true;
    let start = a.pointer(PointerKind::Motion, (x + 20 * 256, y - 5 * 256));
    assert!(start.follow && !a.hovering);
    assert_eq!(start.shape, Some(Cursor::Grabbing));
    assert_eq!(a.drag_apply_step(), Some((1020, 495)));
    assert_eq!((a.position.x, a.position.y), (1020, 495));
    // The implicit grab survives leaving the surface.
    let leave = a.pointer(PointerKind::Leave, (x, y));
    assert!(leave.shape.is_none() && a.drag.dragging());
    // The last motion counts, not the point of the release.
    assert!(!a.pointer(PointerKind::Motion, (x + 256, y)).follow);
    let drop = a.pointer(PointerKind::Release { button: BTN_LEFT }, (x, y));
    assert!(drop.dropped);
    assert_eq!(drop.drop_at, Some((1021, 495)));
    assert_eq!(a.drag, Drag::Idle);
    assert_eq!(a.drag_apply_step(), None);
}

#[test]
fn bubble_click_focuses_and_dismisses() {
    let mut a = with_bubble();
    assert_eq!(a.pointer(PointerKind::Enter, ON_BUBBLE).shape, Some(Cursor::Pointer));
    a.pointer(PointerKind::Press { button: BTN_LEFT }, ON_BUBBLE);
    let r = a.pointer(PointerKind::Release { button: BTN_LEFT }, ON_BUBBLE);
    assert_eq!(r.focus, Some(SessionKey::new(Source::Codex, "s1")));
    assert!(r.redraw && !r.dropped && r.drop_at.is_none());
    assert!(a.alert.visible().is_none());
    assert_eq!((a.position.x, a.position.y), (1000, 500));
    // Released elsewhere, or after leaving: no click.
    let mut b = with_bubble();
    b.pointer(PointerKind::Press { button: BTN_LEFT }, ON_BUBBLE);
    b.pointer(PointerKind::Leave, ON_BUBBLE);
    assert!(b.pointer(PointerKind::Release { button: BTN_LEFT }, ON_BUBBLE).focus.is_none());
    assert!(b.alert.visible().is_some());
}

#[test]
fn sprite_click_does_nothing() {
    let mut a = with_bubble();
    a.pointer(PointerKind::Press { button: BTN_LEFT }, ON_SPRITE);
    let r = a.pointer(PointerKind::Release { button: BTN_LEFT }, ON_SPRITE);
    assert!(!r.dropped && r.focus.is_none() && !r.redraw && !r.hides);
    assert_eq!(r.shape, Some(Cursor::Grab));
    assert!(a.alert.visible().is_some());
}

#[test]
fn right_click_hides_and_other_buttons_do_not() {
    let mut a = app();
    a.pointer(PointerKind::Press { button: BTN_LEFT }, ON_SPRITE);
    let r = a.pointer(PointerKind::Press { button: BTN_RIGHT }, ON_SPRITE);
    assert!(r.hides);
    assert_eq!(a.drag, Drag::Idle);
    assert!(!a.pointer(PointerKind::Press { button: 0x112 }, ON_SPRITE).hides);
    assert!(!a.pointer(PointerKind::Axis, ON_SPRITE).hides);
    assert!(!a.pointer(PointerKind::Release { button: BTN_RIGHT }, ON_SPRITE).hides);
}

#[test]
fn cursor_shapes_are_set_on_change_only() {
    let mut a = app();
    assert_eq!(a.pointer(PointerKind::Motion, ON_SPRITE).shape, Some(Cursor::Grab));
    assert_eq!(a.pointer(PointerKind::Motion, ON_SPRITE).shape, None);
    assert_eq!(a.set_cursor(Cursor::Default), Some(Cursor::Default));
    assert_eq!(a.set_cursor(Cursor::Default), None);
}

#[test]
fn without_outputs_a_dropped_pet_stays_on_its_surface() {
    let mut a = app();
    a.drag_drop(None, &[], 0);
    // 280x228 surface, 128x128 sprite.
    assert_eq!((a.position.x, a.position.y), (152, 100));
}

#[test]
fn a_dragged_pet_walks_if_it_can() {
    let mut a = app_with(&[0, 1, 2], Loaded::Missing);
    a.walk(Heading::Left, 10);
    assert_eq!(a.timeline.current_track(), "idle");
    a.begin_drag();
    assert!(a.walking);
    a.walk(Heading::Left, 10);
    assert_eq!(a.timeline.current_track(), "running-left");
    a.walk(Heading::Right, 20);
    assert_eq!(a.timeline.current_track(), "running-right");
    a.drag_drop(None, &screen(), 30);
    assert!(!a.walking);
    assert_eq!(a.timeline.current_track(), "idle");
    // Art for one direction only: it slides.
    let mut b = app_with(&[0, 1], Loaded::Missing);
    b.begin_drag();
    b.walk(Heading::Right, 10);
    assert_eq!(b.timeline.current_track(), "idle");
}

#[test]
fn sprite_and_bubble_keep_their_places_in_every_quadrant() {
    for scale in 1..=3 {
        for at in [(0, 0), (0, 900), (1500, 0), (1500, 900)] {
            let mut a = app();
            a.configure(0);
            a.timeline.request_state("idle", 0);
            a.mascot.set_output_scale(scale);
            a.sync_layout(at).unwrap();
            a.apply_snapshot(&snap(AgentState::Waiting, Some("hey")), 0);
            let geo = a.begin_frame(0).unwrap();
            let (w, h) = geo.buf_size();
            let mut buf = vec![7u8; (w * h * 4) as usize];
            let area = a.draw(&mut buf, &geo).unwrap();
            // Only the lower half of each cell has ink.
            let s = scale as u32;
            let rect = a.mascot.sprite_rect();
            let inside = |x: u32, y: u32| {
                let (x, y) = ((x / s) as i32, (y / s) as i32);
                x >= rect.x && x < rect.x + 128 && y >= rect.y + 64 && y < rect.y + 128
            };
            for y in 0..h {
                for x in 0..w {
                    let alpha = buf[((y * w + x) * 4 + 3) as usize];
                    assert_eq!(alpha == 255, inside(x, y), "scale {scale} at {at:?}: {x},{y}");
                    assert!(alpha == 255 || alpha == 0);
                }
            }
            let gap = 8 * i64::from(scale);
            for lines in 0..=3 {
                let (top, height) = box_rows(&area, lines);
                if area.above {
                    assert_eq!(top + height + gap, i64::from(area.content_top));
                    assert!(top >= 0);
                } else {
                    assert_eq!(top, i64::from(area.content_bottom) + gap);
                    assert!(top + height <= i64::from(h));
                }
            }
        }
    }
}

#[test]
fn a_pet_turns_the_way_it_went() {
    assert_eq!(turned(10, 11), Some(Heading::Right));
    assert_eq!(turned(10, 9), Some(Heading::Left));
    assert_eq!(turned(10, 10), None);
    assert_eq!(turned(i32::MAX, i32::MIN), Some(Heading::Left));
}

#[test]
fn a_walk_lasts_as_long_as_the_drag() {
    let mut a = app_with(&[0, 1, 2], Loaded::Global(Position { x: 1000, y: 500, visible: true }));
    a.configure(0);
    a.drag = Drag::Dragging { grab: (0, 0), applied: (1000, 500), latest: (0, 0) };
    a.begin_drag();
    assert!(a.walking);
    a.walk(Heading::Right, 10);
    for now in [1_000, 60_000, 3_600_000] {
        assert!(a.begin_frame(now).is_some());
        assert_eq!(a.timeline.current_track(), "running-right");
        a.walk(Heading::Right, now);
    }
    a.walk(Heading::Left, 3_600_100);
    assert_eq!(a.timeline.current_track(), "running-left");
    a.drag_drop(None, &screen(), 3_600_200);
    assert_eq!(a.timeline.current_track(), "idle");
}

#[test]
fn visibility_outlasts_migration_and_restarts() {
    let legacy = || LegacyPosition { output_name: None, margin_x: 10, margin_y: 20, visible: false };
    // Shown before the outputs were known: it stays shown.
    let mut a = app_with(&[0], Loaded::Legacy(legacy()));
    a.show_mascot((10, 20), 0);
    let outs = screen();
    a.ensure_position(&outs, Some(&outs[0]));
    assert_eq!(a.position, Position { x: 10, y: 20, visible: true });
    assert_ne!(a.mascot.visibility, Visibility::Hidden);
    // And the other way round.
    let mut b = app_with(&[0], Loaded::Legacy(LegacyPosition { visible: true, ..legacy() }));
    assert!(b.hide_mascot());
    b.ensure_position(&outs, Some(&outs[0]));
    assert_eq!(b.position, Position { x: 10, y: 20, visible: false });
    // The next run starts as this one ended.
    for (ended, hidden) in [(a, false), (b, true)] {
        let next = app_with(&[0], Loaded::Global(ended.position));
        assert_eq!(next.position, ended.position);
        assert_eq!(next.mascot.visibility == Visibility::Hidden, hidden);
    }
}

#[test]
fn far_away_places_can_be_laid_out() {
    let mut a = app();
    for at in [(i32::MIN, i32::MIN), (i32::MAX, i32::MAX), (i32::MIN, i32::MAX)] {
        let p = a.sync_layout(at).unwrap();
        assert_eq!(i64::from(p.left) + i64::from(a.mascot.layout.mascot_x), i64::from(at.0));
        assert_eq!(i64::from(p.top) + i64::from(a.mascot.layout.mascot_y), i64::from(at.1));
    }
}
