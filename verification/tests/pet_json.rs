use pet_render::sprite::animation::Frame;
use pet_render::sprite::pet_json::{
    AnimationSpec, Fps, FrameEntry, FrameSpec, PetDef, PetError, PetFile, IDLE_TIMINGS_MS,
};
use serde_json::Value;

fn u32_of(v: &Value, key: &str) -> u32 {
    v.get(key).and_then(Value::as_u64).unwrap() as u32
}

fn fps_of(v: Option<&Value>) -> Fps {
    match v.and_then(Value::as_f64) {
        None => Fps::Unset,
        Some(fps) if fps.is_finite() && fps > 0.0 && fps <= 60.0 => {
            Fps::FrameMs((1000.0 / fps).round() as u64)
        }
        Some(fps) => Fps::OutOfRange(format!("{fps}")),
    }
}

fn entry_of(v: &Value) -> FrameEntry {
    match v.as_u64() {
        Some(i) => FrameEntry::Index(i as usize),
        None => FrameEntry::Timed {
            sprite_index: v.get("sprite_index").and_then(Value::as_u64).unwrap() as usize,
            duration_ms: v.get("duration_ms").and_then(Value::as_u64).unwrap(),
        },
    }
}

fn spec_of(v: &Value) -> AnimationSpec {
    AnimationSpec {
        frames: v
            .get("frames")
            .and_then(Value::as_array)
            .map(|a| a.iter().map(entry_of).collect())
            .unwrap_or_default(),
        fps: fps_of(v.get("fps")),
        loop_animation: v.get("loop").and_then(Value::as_bool),
        fallback: v.get("fallback").and_then(Value::as_str).map(String::from),
    }
}

fn file_of(raw: &str) -> PetFile {
    let v: Value = serde_json::from_str(raw).unwrap();
    PetFile {
        id: v.get("id").and_then(Value::as_str).map(String::from),
        sprite_version: v.get("spriteVersionNumber").and_then(Value::as_u64).map(|n| n as u32),
        spritesheet_path: v.get("spritesheetPath").and_then(Value::as_str).map(String::from),
        frame: v.get("frame").map(|f| FrameSpec {
            width: u32_of(f, "width"),
            height: u32_of(f, "height"),
            columns: u32_of(f, "columns"),
            rows: u32_of(f, "rows"),
        }),
        animations: v
            .get("animations")
            .and_then(Value::as_object)
            .map(|m| m.iter().map(|(k, a)| (k.clone(), spec_of(a))).collect())
            .unwrap_or_default(),
    }
}

fn parse(raw: &str) -> Result<PetDef, PetError> {
    PetDef::parse(&file_of(raw), "/tmp/pet", "testpet")
}

const GRID_8X9_64: &str = r#""frame": {"width":64,"height":64,"columns":8,"rows":9}"#;

#[test]
fn accepts_any_exactly_tiling_grid() {
    let pet = parse(&format!(r#"{{ {GRID_8X9_64} }}"#)).unwrap();
    pet.validate_sheet(512, 576).unwrap();
    assert_eq!(pet.frame_count(), 72);
}

#[test]
fn rejects_grid_that_does_not_tile_sheet() {
    let pet = parse(&format!(r#"{{ {GRID_8X9_64} }}"#)).unwrap();
    let err = pet.validate_sheet(512, 640).unwrap_err();
    assert!(err.message().contains("cover spritesheet exactly"));
}

#[test]
fn rejects_zero_frame_dimensions() {
    let err = parse(r#"{"frame": {"width":0,"height":64,"columns":8,"rows":9}}"#).unwrap_err();
    assert!(err.message().contains("must be non-zero"));
}

#[test]
fn rejects_frame_count_over_cap() {
    let err = parse(r#"{"frame": {"width":4,"height":4,"columns":32,"rows":9}}"#).unwrap_err();
    assert!(err.message().contains("exceeds maximum 256"));
}

#[test]
fn rejects_sprite_index_outside_grid() {
    let err = parse(&format!(
        r#"{{ {GRID_8X9_64}, "animations": {{"idle": {{"frames": [72]}}}} }}"#
    ))
    .unwrap_err();
    assert!(err.message().contains("references sprite index 72"));
}

#[test]
fn rejects_bad_fps() {
    for fps in ["120.0", "0.0", "-2"] {
        let err = parse(&format!(
            r#"{{ {GRID_8X9_64}, "animations": {{"idle": {{"frames": [0], "fps": {fps}}}}} }}"#
        ))
        .unwrap_err();
        assert!(err.message().contains("fps must be finite and between"));
    }
}

#[test]
fn rejects_empty_frames() {
    let err = parse(&format!(
        r#"{{ {GRID_8X9_64}, "animations": {{"wave": {{"frames": []}}}} }}"#
    ))
    .unwrap_err();
    assert!(err.message().contains("at least one frame"));
}

#[test]
fn rejects_missing_fallback_track() {
    let err = parse(&format!(
        r#"{{ {GRID_8X9_64},
                 "animations": {{"wave": {{"frames": [1], "loop": false, "fallback": "missing"}}}} }}"#
    ))
    .unwrap_err();
    assert!(err.message().contains("fallback missing does not exist"));
}

#[test]
fn fps_defaults_to_8() {
    let pet = parse(&format!(
        r#"{{ {GRID_8X9_64}, "animations": {{"idle": {{"frames": [0, 1]}}}} }}"#
    ))
    .unwrap();
    assert_eq!(pet.animations.get("idle").unwrap().frames[0].duration_ms, 125);
}

#[test]
fn loop_defaults_true_and_false_is_one_shot() {
    let pet = parse(&format!(
        r#"{{ {GRID_8X9_64}, "animations": {{
                 "a": {{"frames": [0]}},
                 "b": {{"frames": [1], "loop": false}} }} }}"#
    ))
    .unwrap();
    assert_eq!(pet.animations.get("a").unwrap().loop_start, Some(0));
    assert_eq!(pet.animations.get("a").unwrap().fallback, "idle");
    assert_eq!(pet.animations.get("b").unwrap().loop_start, None);
}

#[test]
fn idle_synthesized_from_row_zero_with_codex_timings() {
    let pet = parse(&format!(r#"{{ {GRID_8X9_64} }}"#)).unwrap();
    let idle = pet.animations.get("idle").unwrap();
    assert_eq!(
        idle.frames.iter().map(|f| f.sprite_index).collect::<Vec<_>>(),
        vec![0, 1, 2, 3, 4, 5]
    );
    assert_eq!(
        idle.frames.iter().map(|f| f.duration_ms).collect::<Vec<_>>(),
        IDLE_TIMINGS_MS.to_vec()
    );
    assert_eq!(idle.loop_start, Some(0));
}

#[test]
fn canonical_grid_seeds_semantic_state_tracks() {
    let pet = parse("{}").unwrap();
    // Default grid, no animations: rows 5-8 become state tracks.
    assert_eq!(pet.animations.get("failed").unwrap().frames[0].sprite_index, 40);
    assert_eq!(pet.animations.get("waiting").unwrap().frames[0].sprite_index, 48);
    assert_eq!(pet.animations.get("running").unwrap().frames[0].sprite_index, 56);
    assert_eq!(pet.animations.get("review").unwrap().frames[0].sprite_index, 64);
}

#[test]
fn small_grid_gets_only_idle() {
    let pet = parse(r#"{"frame": {"width":16,"height":16,"columns":4,"rows":2}}"#).unwrap();
    assert!(pet.animations.contains_key("idle"));
    assert!(!pet.animations.contains_key("running"));
    // Synthesized idle clamps to the row width.
    assert_eq!(pet.animations.get("idle").unwrap().frames.len(), 4);
}

#[test]
fn frame_entries_accept_bare_and_timed_forms() {
    let pet = parse(&format!(
        r#"{{ {GRID_8X9_64}, "animations": {{"idle": {{"frames":
                 [3, {{"sprite_index": 4, "duration_ms": 900}}], "fps": 10}}}} }}"#
    ))
    .unwrap();
    let idle = pet.animations.get("idle").unwrap();
    assert_eq!(idle.frames[0], Frame { sprite_index: 3, duration_ms: 100 });
    assert_eq!(idle.frames[1], Frame { sprite_index: 4, duration_ms: 900 });
}

#[test]
fn spritesheet_path_may_not_escape_pet_dir() {
    let err = parse(r#"{"spritesheetPath": "../sheet.png"}"#).unwrap_err();
    assert!(err.message().contains("must stay inside"));
}

#[test]
fn v1_grid_derived_when_frame_absent() {
    // No frame, no version -> v1 canonical 8x9.
    let pet = parse(r#"{"id":"x"}"#).unwrap();
    assert_eq!((pet.columns, pet.rows), (8, 9));
    assert_eq!((pet.frame_width, pet.frame_height), (192, 208));
    assert_eq!(pet.frame_count(), 72);
    pet.validate_sheet(1536, 1872).unwrap();
}

#[test]
fn v2_minimal_manifest_derives_8x11_grid_and_gaze_rows() {
    let pet = parse(
        r#"{"id":"fenny-frank","spriteVersionNumber":2,"spritesheetPath":"spritesheet.webp"}"#,
    )
    .unwrap();
    assert_eq!(pet.id, "fenny-frank");
    assert_eq!((pet.columns, pet.rows), (8, 11));
    assert_eq!(pet.frame_count(), 88); // rows 9,10 = gaze frames 72..87
    pet.validate_sheet(1536, 2288).unwrap();
    // The v2 sheet only exact-tiles at 1536x2288.
    assert!(pet.validate_sheet(1536, 1872).is_err());
}

#[test]
fn code_driven_map_has_all_state_and_gesture_tracks_with_app_timings() {
    let pet = parse(r#"{"spriteVersionNumber":2}"#).unwrap();
    for track in [
        "idle",
        "running-right",
        "running-left",
        "waving",
        "jumping",
        "failed",
        "waiting",
        "running",
        "review",
    ] {
        assert!(pet.animations.contains_key(track), "missing {track}");
    }
    // Exact frame counts + timings of the row table.
    let waving = pet.animations.get("waving").unwrap();
    assert_eq!(waving.frames.len(), 4);
    assert_eq!(waving.frames[0].sprite_index, 24); // row 3 * 8
    assert_eq!(
        waving.frames.iter().map(|f| f.duration_ms).collect::<Vec<_>>(),
        vec![140, 140, 140, 280]
    );
    let jumping = pet.animations.get("jumping").unwrap();
    assert_eq!(jumping.frames.len(), 5);
    assert_eq!(jumping.frames[0].sprite_index, 32); // row 4 * 8
    assert_eq!(jumping.frames[4].duration_ms, 280);
    let walk_r = pet.animations.get("running-right").unwrap();
    assert_eq!(walk_r.frames.len(), 8);
    assert_eq!(walk_r.frames[0].sprite_index, 8); // row 1 * 8
    assert_eq!(pet.animations.get("running-left").unwrap().frames[0].sprite_index, 16);
    // Idle keeps the bespoke breathing timings.
    assert_eq!(
        pet.animations
            .get("idle")
            .unwrap()
            .frames
            .iter()
            .map(|f| f.duration_ms)
            .collect::<Vec<_>>(),
        IDLE_TIMINGS_MS.to_vec()
    );
}

#[test]
fn every_refusal_says_why() {
    let e = |raw: &str| parse(raw).unwrap_err().message();
    assert_eq!(
        e(r#"{"frame": {"width":1,"height":1,"columns":65536,"rows":65536}}"#),
        "pet frame count overflow"
    );
    assert_eq!(
        e(r#"{"frame": {"width":4,"height":4,"columns":32,"rows":9}}"#),
        "pet frame count 288 exceeds maximum 256"
    );
    assert_eq!(
        e(r#"{"spritesheetPath": "/etc/sheet.png"}"#),
        "spritesheet path must stay inside /tmp/pet"
    );
    assert_eq!(
        e(r#"{"animations": {"idle": {"frames": [72]}}}"#),
        "animation idle references sprite index 72, but pet has 72 frames"
    );
    assert_eq!(
        e(r#"{"animations": {"x": {"frames": [0], "fps": 61}}}"#),
        "animation x fps must be finite and between 0 and 60, got 61"
    );
    assert_eq!(
        e(r#"{"animations": {"x": {"frames": []}}}"#),
        "animation x must include at least one frame"
    );
    assert_eq!(
        e(r#"{"animations": {"x": {"frames": [0], "fallback": "y"}}}"#),
        "animation x fallback y does not exist"
    );
    let wide = parse(r#"{"frame": {"width":4294967295,"height":1,"columns":2,"rows":1}}"#).unwrap();
    assert_eq!(wide.validate_sheet(1, 1).unwrap_err().message(), "pet frame grid width overflow");
    let high = parse(r#"{"frame": {"width":1,"height":4294967295,"columns":1,"rows":2}}"#).unwrap();
    assert_eq!(high.validate_sheet(1, 1).unwrap_err().message(), "pet frame grid height overflow");
    assert_eq!(
        parse("{}").unwrap().validate_sheet(1536, 1871).unwrap_err().message(),
        "pet frame grid must cover spritesheet exactly: sheet is 1536x1871, grid covers 1536x1872"
    );
}

#[test]
fn names_and_paths_are_trimmed_and_defaulted() {
    let pet = parse(r#"{"id": "  ", "spritesheetPath": " a/./b..png "}"#).unwrap();
    assert_eq!(pet.id, "testpet");
    assert_eq!(pet.spritesheet_path, "/tmp/pet/a/./b..png");
    let plain = parse(r#"{"id": " x\t", "spritesheetPath": ""}"#).unwrap();
    assert_eq!(plain.id, "x");
    assert_eq!(plain.spritesheet_path, "/tmp/pet/spritesheet.webp");
    let slash = PetDef::parse(&file_of("{}"), "/tmp/pet/", "p").unwrap();
    assert_eq!(slash.spritesheet_path, "/tmp/pet/spritesheet.webp");
    assert!(parse(r#"{"spritesheetPath": "a/../b.png"}"#).is_err());
}

#[test]
fn declared_animations_override_the_row_table() {
    let pet = parse(r#"{"animations": {"waving": {"frames": [7], "fallback": ""}}}"#).unwrap();
    let waving = pet.animations.get("waving").unwrap();
    assert_eq!(waving.frames, vec![Frame { sprite_index: 7, duration_ms: 125 }]);
    assert_eq!(waving.fallback, "idle");
    assert_eq!(pet.animations.get("jumping").unwrap().frames.len(), 5);
    assert_eq!(pet.animations.len(), 9);
}

#[test]
fn smallest_grid_still_idles() {
    let pet = parse(r#"{"frame": {"width":1,"height":1,"columns":1,"rows":1}}"#).unwrap();
    let copy = pet.clone();
    assert_eq!(copy.animations.get("idle").unwrap().frames, vec![Frame { sprite_index: 0, duration_ms: 1680 }]);
    assert_eq!((copy.id.as_str(), copy.frame_count()), ("testpet", 1));
}
