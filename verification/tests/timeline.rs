use pet_render::sprite::animation::{Animation, AnimationMap, Frame};
use pet_render::sprite::pet_json::PetDef;
use pet_render::sprite::timeline::Timeline;

fn pet(tracks: &[(&str, &[(usize, u64)], Option<usize>, &str)]) -> PetDef {
    let mut animations = AnimationMap::new();
    for (name, frames, loop_start, fallback) in tracks {
        animations.insert(
            name.to_string(),
            Animation {
                frames: frames
                    .iter()
                    .map(|&(sprite_index, duration_ms)| Frame { sprite_index, duration_ms })
                    .collect(),
                loop_start: *loop_start,
                fallback: fallback.to_string(),
            },
        );
    }
    PetDef {
        id: "t".into(),
        spritesheet_path: String::new(),
        frame_width: 1,
        frame_height: 1,
        columns: 8,
        rows: 9,
        animations,
    }
}

fn idle_only() -> PetDef {
    pet(&[("idle", &[(0, 100), (1, 200)], Some(0), "idle")])
}

#[test]
fn idle_loops_with_wrap_to_loop_start() {
    let mut tl = Timeline::new(&idle_only(), 0);
    assert_eq!(tl.sprite_index(), 0);
    assert_eq!(tl.next_deadline_ms(), 100);
    tl.advance(100);
    assert_eq!(tl.sprite_index(), 1);
    assert_eq!(tl.next_deadline_ms(), 300);
    tl.advance(300);
    assert_eq!(tl.sprite_index(), 0); // wrapped
    assert_eq!(tl.next_deadline_ms(), 400);
}

#[test]
fn advance_catches_up_over_multiple_frames() {
    let mut tl = Timeline::new(&idle_only(), 0);
    assert!(tl.advance(350)); // 0..100 f0, 100..300 f1, 300.. f0
    assert_eq!(tl.sprite_index(), 0);
    assert_eq!(tl.next_deadline_ms(), 400);
}

#[test]
fn one_shot_hands_off_to_fallback() {
    let p = pet(&[
        ("idle", &[(0, 100)], Some(0), "idle"),
        ("wave", &[(8, 50), (9, 50)], None, "idle"),
    ]);
    let mut tl = Timeline::new(&p, 0);
    // Enter ambient one-shot by requesting then exhausting passes is the
    // state path; drive the ambient path directly.
    tl.enter("wave", None, 0);
    tl.advance(50);
    assert_eq!(tl.sprite_index(), 9);
    tl.advance(100);
    assert_eq!(tl.current_track(), "idle");
    assert_eq!(tl.sprite_index(), 0);
}

#[test]
fn state_track_plays_three_times_then_settles_to_idle() {
    let p = pet(&[
        ("idle", &[(0, 100)], Some(0), "idle"),
        ("running", &[(56, 100), (57, 100)], Some(0), "idle"),
    ]);
    let mut tl = Timeline::new(&p, 0);
    tl.request_state("running", 0);
    assert_eq!(tl.sprite_index(), 56);
    for (t, expect) in [
        (100, 57), // pass 1
        (200, 56),
        (300, 57), // pass 2
        (400, 56),
        (500, 57), // pass 3
    ] {
        tl.advance(t);
        assert_eq!(tl.sprite_index(), expect, "at t={t}");
        assert_eq!(tl.current_track(), "running");
    }
    tl.advance(600);
    assert_eq!(tl.current_track(), "idle");
    assert_eq!(tl.sprite_index(), 0);
    // ... and idle keeps looping.
    tl.advance(700);
    assert_eq!(tl.current_track(), "idle");
    assert_eq!(tl.next_deadline_ms(), 800);
}

#[test]
fn one_shot_state_track_respects_pass_count_then_falls_back() {
    let p = pet(&[
        ("idle", &[(0, 100)], Some(0), "idle"),
        ("review", &[(64, 100)], None, "idle"),
    ]);
    let mut tl = Timeline::new(&p, 0);
    tl.request_state("review", 0);
    tl.advance(100);
    assert_eq!(tl.current_track(), "review"); // pass 2
    tl.advance(200);
    assert_eq!(tl.current_track(), "review"); // pass 3
    tl.advance(300);
    assert_eq!(tl.current_track(), "idle");
}

#[test]
fn repeated_state_request_does_not_restart() {
    let p = pet(&[
        ("idle", &[(0, 100)], Some(0), "idle"),
        ("running", &[(56, 100), (57, 100)], Some(0), "idle"),
    ]);
    let mut tl = Timeline::new(&p, 0);
    tl.request_state("running", 0);
    tl.advance(100);
    assert_eq!(tl.sprite_index(), 57);
    tl.request_state("running", 150);
    assert_eq!(tl.sprite_index(), 57); // unchanged, not reset to frame 0
    assert_eq!(tl.next_deadline_ms(), 200);
}

#[test]
fn state_change_switches_immediately() {
    let p = pet(&[
        ("idle", &[(0, 100)], Some(0), "idle"),
        ("running", &[(56, 100)], Some(0), "idle"),
        ("waiting", &[(48, 100)], Some(0), "idle"),
    ]);
    let mut tl = Timeline::new(&p, 0);
    tl.request_state("running", 0);
    tl.request_state("waiting", 30);
    assert_eq!(tl.sprite_index(), 48);
    assert_eq!(tl.next_deadline_ms(), 130);
    // Back to idle on request, too.
    tl.request_state("idle", 50);
    assert_eq!(tl.current_track(), "idle");
}

#[test]
fn unknown_track_falls_back_to_idle() {
    let mut tl = Timeline::new(&idle_only(), 0);
    tl.request_state("running", 0);
    assert_eq!(tl.current_track(), "idle");
}

#[test]
fn request_loop_plays_a_track_indefinitely_without_settling() {
    let p = pet(&[
        ("idle", &[(0, 100)], Some(0), "idle"),
        ("running-right", &[(8, 100), (9, 100)], Some(0), "idle"),
        ("running-left", &[(16, 100), (17, 100)], Some(0), "idle"),
    ]);
    let mut tl = Timeline::new(&p, 0);
    tl.request_loop("running-right", 0);
    assert_eq!(tl.current_track(), "running-right");
    // Loops well past 3 passes (a burst would have settled to idle).
    for t in (100..=1200).step_by(100) {
        tl.advance(t as u64);
        assert_eq!(tl.current_track(), "running-right", "at t={t}");
    }
    // Repeated same-direction request does not restart.
    tl.advance(1250);
    let before = tl.sprite_index();
    tl.request_loop("running-right", 1250);
    assert_eq!(tl.sprite_index(), before);
    // Switching direction switches immediately.
    tl.request_loop("running-left", 1300);
    assert_eq!(tl.current_track(), "running-left");
}

#[test]
fn advancing_in_steps_is_advancing_at_once() {
    let p = pet(&[
        ("idle", &[(0, 70), (1, 30)], Some(1), "idle"),
        ("running", &[(5, 40), (6, 10), (7, 0)], Some(1), "idle"),
    ]);
    let mut at_once = Timeline::new(&p, 0);
    let mut in_steps = Timeline::new(&p, 0);
    at_once.request_state("running", 5);
    in_steps.request_state("running", 5);
    for t in 6..400 {
        in_steps.advance(t);
    }
    at_once.advance(399);
    assert_eq!(at_once.current_track(), in_steps.current_track());
    assert_eq!(at_once.sprite_index(), in_steps.sprite_index());
    assert_eq!(at_once.next_deadline_ms(), in_steps.next_deadline_ms());
}

#[test]
fn burst_ends_after_its_passes_to_the_millisecond() {
    // First pass 40+10+1 ms, two more from the loop start: 10+1 ms each.
    let p = pet(&[
        ("idle", &[(0, 100)], Some(0), "idle"),
        ("running", &[(5, 40), (6, 10), (7, 0)], Some(1), "idle"),
    ]);
    let mut tl = Timeline::new(&p, 0);
    tl.request_state("running", 1000);
    tl.advance(1000 + 72);
    assert_eq!((tl.current_track(), tl.sprite_index()), ("running", 7));
    tl.advance(1000 + 73);
    assert_eq!((tl.current_track(), tl.sprite_index()), ("idle", 0));
    assert_eq!(tl.next_deadline_ms(), 1173);
}

#[test]
fn sprites_of_the_whole_track_are_listed() {
    let tl = Timeline::new(&idle_only(), 0);
    assert_eq!(tl.current_sprites(), vec![0, 1]);
    assert!(!Timeline::new(&idle_only(), 0).advance(99));
}

#[test]
fn playback_stays_on_the_clock() {
    let p = pet(&[("idle", &[(0, u64::MAX - 10)], Some(0), "idle")]);
    let mut tl = Timeline::new(&p, 0);
    assert_eq!(tl.next_deadline_ms(), u64::MAX - 10);
    tl.request_state("nothing", 10);
    assert_eq!((tl.current_track(), tl.next_deadline_ms()), ("idle", u64::MAX));
    assert!(!tl.advance(u64::MAX - 1));
}

#[test]
fn requesting_the_track_already_playing_does_not_disturb_it() {
    let p = pet(&[
        ("idle", &[(0, 100)], Some(0), "idle"),
        ("running", &[(56, 100)], Some(0), "idle"),
    ]);
    let mut tl = Timeline::new(&p, 0);
    tl.request_state("running", 0);
    tl.advance(300);
    tl.request_state("idle", 350);
    assert_eq!(tl.current_track(), "idle");
    assert_eq!(tl.sprite_index(), 0);
    assert_eq!(tl.next_deadline_ms(), 400);
    // It counts as asked for: running is news again.
    tl.request_state("running", 360);
    assert_eq!(tl.current_track(), "running");
    assert_eq!(tl.next_deadline_ms(), 460);
}

#[test]
fn request_loop_keeps_tracks_that_would_hand_off() {
    let p = pet(&[
        ("idle", &[(0, 100)], Some(0), "idle"),
        ("wave", &[(8, 50), (9, 50)], None, "idle"),
        ("nod", &[(16, 50), (17, 50)], Some(7), "idle"),
    ]);
    let mut tl = Timeline::new(&p, 0);
    tl.request_loop("wave", 0);
    tl.advance(100);
    assert_eq!(tl.current_track(), "wave");
    assert_eq!(tl.sprite_index(), 8);
    tl.advance(1_050);
    assert_eq!((tl.current_track(), tl.sprite_index()), ("wave", 9));
    // A loop start past the end: the last frame stays.
    tl.request_loop("nod", 1_060);
    tl.advance(1_160);
    assert_eq!((tl.current_track(), tl.sprite_index()), ("nod", 17));
    // The next request ends it.
    tl.request_state("idle", 1_170);
    assert_eq!(tl.current_track(), "idle");
    // A state track still hands off.
    tl.request_state("wave", 2_000);
    tl.advance(2_300);
    assert_eq!(tl.current_track(), "idle");
}
