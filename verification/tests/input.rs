use pet_render::input::drag::{Drag, Release};
use pet_render::input::router::{
    cursor_for, hit_test, hover_transition, input_rects, Clicks, Cursor, Hit, HoverChange, Rect,
};

/// Pixels as pointer coordinates.
fn px(p: (f64, f64)) -> (i32, i32) {
    ((p.0 * 256.0).round() as i32, (p.1 * 256.0).round() as i32)
}

#[test]
fn small_motion_is_a_click() {
    let mut drag = Drag::Idle;
    drag.press(px((10.0, 10.0)), (100, 200));
    assert!(!drag.motion(px((12.0, 12.0)))); // sqrt(8) < 4
    assert!(!drag.motion(px((13.0, 12.5)))); // sqrt(15.25) < 4
    assert_eq!(drag.take_pending(), None);
    assert_eq!(drag.release(), Release::Click);
    assert_eq!(drag, Drag::Idle);
}

#[test]
fn exact_threshold_is_still_a_click() {
    let mut drag = Drag::Idle;
    drag.press(px((0.0, 0.0)), (0, 0));
    assert!(!drag.motion(px((4.0, 0.0)))); // 16 == 16, not past
    assert_eq!(drag.release(), Release::Click);
}

#[test]
fn threshold_crossing_reports_drag_start_once() {
    let mut drag = Drag::Idle;
    drag.press(px((10.0, 10.0)), (100, 200));
    assert!(drag.motion(px((15.0, 10.0))));
    assert!(!drag.motion(px((20.0, 10.0))));
    assert!(drag.dragging());
}

#[test]
fn motions_between_callbacks_coalesce_to_one_net_delta() {
    let mut drag = Drag::Idle;
    drag.press(px((10.0, 10.0)), (100, 200));
    drag.motion(px((15.0, 10.0)));
    drag.motion(px((20.0, 14.0)));
    drag.motion(px((25.0, 12.0))); // net delta from grab: (+15, +2)
    assert_eq!(drag.take_pending(), Some((115, 202)));
    // No motion since: the stash was rebased, the delta must be zero -
    // this is the double-count regression guard.
    assert_eq!(drag.take_pending(), Some((115, 202)));
    assert_eq!(drag.take_pending(), Some((115, 202)));
}

#[test]
fn post_apply_motions_measure_from_the_new_position() {
    let mut drag = Drag::Idle;
    drag.press(px((10.0, 10.0)), (100, 200));
    drag.motion(px((30.0, 10.0)));
    assert_eq!(drag.take_pending(), Some((120, 200)));
    // Surface moved +20 under a pointer that kept moving right: the
    // compositor now reports coordinates in the moved surface's space.
    drag.motion(px((15.0, 10.0))); // 5 right of grab in the new space
    assert_eq!(drag.take_pending(), Some((125, 200)));
    // Stationary pointer reads back exactly the grab point: no drift.
    drag.motion(px((10.0, 10.0)));
    assert_eq!(drag.take_pending(), Some((125, 200)));
}

#[test]
fn fractional_deltas_round_per_apply() {
    let mut drag = Drag::Idle;
    drag.press(px((0.0, 0.0)), (0, 0));
    drag.motion(px((10.0, 0.0)));
    drag.motion(px((3.6, 0.4))); // stash overwrite: net (+3.6, +0.4)
    assert_eq!(drag.take_pending(), Some((4, 0)));
    // Compositor reports the sub-pixel residue after the move.
    drag.motion(px((-0.4, 0.4)));
    assert_eq!(drag.take_pending(), Some((4, 0)));
}

#[test]
fn release_semantics() {
    let mut drag = Drag::Idle;
    assert!(!drag.motion(px((50.0, 50.0))));
    assert_eq!(drag.release(), Release::Nothing);
    drag.press(px((0.0, 0.0)), (10, 10));
    drag.motion(px((9.0, 0.0)));
    assert_eq!(drag.release(), Release::Dropped);
    assert_eq!(drag.take_pending(), None);
}

#[test]
fn half_pixels_round_away_from_zero() {
    let mut drag = Drag::Idle;
    drag.press(px((0.0, 0.0)), (0, 0));
    drag.motion(px((5.5, -5.5)));
    assert_eq!(drag.take_pending(), Some((6, -6)));
    drag.motion(px((0.25, -0.25)));
    assert_eq!(drag.take_pending(), Some((6, -6)));
}

#[test]
fn a_started_drag_goes_on_inside_the_threshold() {
    let mut drag = Drag::Idle;
    drag.press((0, 0), (50, 50));
    assert!(drag.motion(px((0.0, -5.0))));
    assert!(!drag.motion((0, 0)));
    assert!(drag.dragging());
    assert_eq!(drag.take_pending(), Some((50, 50)));
    // The farthest pointer coordinates are measured without overflow.
    drag.press((i32::MIN, i32::MIN), (0, 0));
    assert!(drag.motion((i32::MAX, i32::MAX)));
    assert_eq!(drag.take_pending(), Some((16_777_216, 16_777_216)));
}

const SPRITE: Rect = Rect { x: 152, y: 100, w: 128, h: 128 };
const BUBBLE: Rect = Rect { x: 8, y: 20, w: 264, h: 74 };

#[test]
fn input_region_is_sprite_only_without_bubble() {
    assert_eq!(input_rects(SPRITE, None), vec![SPRITE]);
}

#[test]
fn input_region_adds_bubble_box_while_shown() {
    assert_eq!(input_rects(SPRITE, Some(BUBBLE)), vec![SPRITE, BUBBLE]);
}

#[test]
fn hit_test_routes_by_rect_and_bubble_wins_overlap() {
    assert_eq!(hit_test(px((200.0, 150.0)), SPRITE, Some(BUBBLE)), Hit::Sprite);
    assert_eq!(hit_test(px((50.0, 40.0)), SPRITE, Some(BUBBLE)), Hit::Bubble);
    assert_eq!(hit_test(px((50.0, 40.0)), SPRITE, None), Hit::Outside);
    assert_eq!(hit_test(px((1.0, 99.0)), SPRITE, Some(BUBBLE)), Hit::Outside);
    // Bubble overlapping the sprite: bubble is drawn on top and wins.
    let over = Rect { x: 150, y: 90, w: 60, h: 60 };
    assert_eq!(hit_test(px((160.0, 110.0)), SPRITE, Some(over)), Hit::Bubble);
    // Edges: inclusive origin, exclusive far edge.
    assert!(SPRITE.contains(px((152.0, 100.0))));
    assert!(!SPRITE.contains(px((280.0, 100.0))));
}

#[test]
fn input_region_takes_exactly_what_can_be_hit() {
    for x in -10..300 {
        for y in [0, 19, 20, 93, 94, 99, 100, 227, 228] {
            let p = (x * 256 + 255, y * 256);
            let inside = input_rects(SPRITE, Some(BUBBLE)).iter().any(|r| r.contains(p));
            assert_eq!(inside, hit_test(p, SPRITE, Some(BUBBLE)) != Hit::Outside);
        }
    }
}

#[test]
fn bubble_click_fires_on_release_inside_only() {
    let mut clicks = Clicks::default();
    assert!(!clicks.press(Hit::Bubble)); // no drag grab
    assert!(clicks.release(Hit::Bubble)); // fires
    assert!(!clicks.release(Hit::Bubble)); // disarmed after firing

    clicks.press(Hit::Bubble);
    assert!(!clicks.release(Hit::Outside)); // slid off: no click

    clicks.press(Hit::Bubble);
    clicks.cancel(); // e.g. pointer left the surface
    assert!(!clicks.release(Hit::Bubble));
}

#[test]
fn sprite_press_grabs_drag_and_never_fires_bubble_click() {
    let mut clicks = Clicks::default();
    assert!(clicks.press(Hit::Sprite));
    assert!(!clicks.release(Hit::Sprite));
    assert!(!clicks.release(Hit::Bubble));
}

#[test]
fn cursor_states() {
    assert_eq!(cursor_for(false, Hit::Bubble), Cursor::Pointer);
    assert_eq!(cursor_for(false, Hit::Sprite), Cursor::Grab);
    assert_eq!(cursor_for(false, Hit::Outside), Cursor::Default);
    // An active drag overrides whatever is hovered.
    assert_eq!(cursor_for(true, Hit::Sprite), Cursor::Grabbing);
    assert_eq!(cursor_for(true, Hit::Outside), Cursor::Grabbing);
}

#[test]
fn hover_jump_edges_only_over_sprite_when_docked_and_idle() {
    let mut hovering = false;
    // Enter the sprite (docked, not dragging, has art): jump once.
    assert_eq!(
        hover_transition(true, true, false, true, &mut hovering),
        Some(HoverChange::Jump)
    );
    assert!(hovering);
    // Staying over the sprite: no re-fire.
    assert_eq!(hover_transition(true, true, false, true, &mut hovering), None);
    // Leave the sprite: return to base.
    assert_eq!(
        hover_transition(false, true, false, true, &mut hovering),
        Some(HoverChange::ReturnToBase)
    );
    assert!(!hovering);
}

#[test]
fn hover_jump_suppressed_by_drag_full_output_and_missing_art() {
    // Over the sprite but dragging: no jump.
    let mut hovering = false;
    assert_eq!(hover_transition(true, true, true, true, &mut hovering), None);
    // Full-output (not docked): no jump.
    assert_eq!(hover_transition(true, false, false, true, &mut hovering), None);
    // No jump art (default pet): no jump.
    assert_eq!(hover_transition(true, true, false, false, &mut hovering), None);
    assert!(!hovering);
    // A drag that begins while hovering forces a return-to-base edge.
    let mut hovering = true;
    assert_eq!(
        hover_transition(true, true, true, true, &mut hovering),
        Some(HoverChange::ReturnToBase)
    );
}
