use pet_render::compose::{scene, sprite_scale_for, Geometry};
use pet_render::preview::{compose_scene, scene_geometry, to_straight_rgba};
use pet_render::proto::AgentState;
use pet_render::sprite::pet_json::{FrameSpec, PetDef, PetFile};
use pet_render::sprite::sheet::{premul, Sheet};
use pet_render::sprite::timeline::Timeline;

#[test]
fn sprite_scale_targets_logical_size() {
    assert_eq!(sprite_scale_for(64, None), 2);
    assert_eq!(sprite_scale_for(208, None), 1);
    assert_eq!(sprite_scale_for(32, None), 4);
    assert_eq!(sprite_scale_for(1000, None), 1);
}

#[test]
fn wanted_scales_are_brought_into_range() {
    assert_eq!(sprite_scale_for(64, Some(0)), 1);
    assert_eq!(sprite_scale_for(64, Some(5)), 5);
    assert_eq!(sprite_scale_for(0, Some(99)), 8);
}

#[test]
fn natural_scale_is_the_nearest_one() {
    for h in 1..=256u32 {
        let off = |s: u32| (s * h).abs_diff(128);
        let s = sprite_scale_for(h, None);
        assert!((0..=130).all(|other| off(s) <= off(other)), "height {h}");
    }
}

fn pet(columns: u32) -> PetDef {
    let file = PetFile {
        id: None,
        sprite_version: None,
        spritesheet_path: None,
        frame: Some(FrameSpec { width: 2, height: 2, columns, rows: 1 }),
        animations: vec![],
    };
    PetDef::parse(&file, "/p", "p").unwrap()
}

/// One 2x2 frame: clear top row, opaque red bottom row.
fn sheet() -> Sheet {
    let rgba = [0, 0, 0, 0, 0, 0, 0, 0, 255, 0, 0, 255, 255, 0, 0, 255];
    Sheet::from_rgba(&rgba, 2, 2, 2, 2).unwrap()
}

fn geo() -> Geometry {
    Geometry {
        surf_w: 4,
        surf_h: 3,
        mascot_x: 2,
        mascot_y: 1,
        mascot_w: 2,
        bubble_above: true,
        anchor_right: false,
        sprite_scale: 1,
        oscale: 2,
    }
}

#[test]
fn scene_clears_and_draws_the_sprite_at_its_place() {
    let mut sheet = sheet();
    let timeline = Timeline::new(&pet(1), 0);
    let geo = geo();
    assert_eq!(geo.buf_size(), (8, 6));
    let mut buf = vec![9u8; 8 * 6 * 4];
    assert_eq!(scene(&mut buf, &geo, &mut sheet, &timeline, false), None);
    for y in 0..6 {
        for x in 0..8 {
            let inked = x >= 4 && y >= 4;
            let want: [u8; 4] = if inked { [0, 0, 255, 255] } else { [0; 4] };
            assert_eq!(&buf[(y * 8 + x) * 4..][..4], &want, "at {x},{y}");
        }
    }
}

#[test]
fn bubble_anchors_to_visible_ink() {
    let mut sheet = sheet();
    let timeline = Timeline::new(&pet(1), 0);
    let mut buf = vec![0u8; 8 * 6 * 4];
    let area = scene(&mut buf, &geo(), &mut sheet, &timeline, true).unwrap();
    assert_eq!((area.canvas_w, area.canvas_h), (8, 6));
    assert_eq!((area.sprite_x, area.sprite_w), (4, 4));
    // Ink rows 1..2 of the frame, at factor 2, below y = 2.
    assert_eq!((area.content_top, area.content_bottom), (4, 6));
    assert!(area.above && !area.anchor_right);
    assert_eq!(area.scale, 2);
}

#[test]
fn frames_the_sheet_lacks_show_the_first() {
    // The pet has two cells, the sheet one.
    let mut sheet = sheet();
    let mut timeline = Timeline::new(&pet(2), 0);
    timeline.advance(1680);
    assert_eq!(timeline.sprite_index(), 1);
    let mut buf = vec![0u8; 8 * 6 * 4];
    scene(&mut buf, &geo(), &mut sheet, &timeline, false);
    assert_eq!(&buf[(5 * 8 + 7) * 4..], &[0, 0, 255, 255]);
    // Without any frame nothing is touched.
    let mut none = Sheet::from_rgba(&[], 0, 2, 2, 2).unwrap();
    let mut kept = vec![5u8; 8 * 6 * 4];
    assert_eq!(scene(&mut kept, &geo(), &mut none, &timeline, true), None);
    assert!(kept.iter().all(|b| *b == 5));
}

#[test]
fn preview_composes_the_default_quadrant() {
    let pet = pet(1);
    let mut sheet = sheet();
    let p = compose_scene(&pet, &mut sheet, AgentState::Waiting, Some("hi"), 5000, 3);
    assert_eq!((p.width, p.height), (280, 106));
    assert_eq!(p.buf.len(), 280 * 106 * 4);
    assert_eq!(&p.buf[p.buf.len() - 4..], &[0, 0, 255, 255]);
    let (bubble, area) = p.bubble.unwrap();
    assert_eq!((bubble.label, bubble.body.as_str()), ("Needs input", "hi"));
    assert_eq!(bubble.visible_chars(5000), 2);
    assert_eq!((area.content_top, area.content_bottom), (103, 106));
    let plain = compose_scene(&pet, &mut sheet, AgentState::Waiting, None, 5000, 3);
    assert!(plain.bubble.is_none());
    assert_eq!(plain.buf, p.buf);
    assert_eq!(scene_geometry(300, 10, 1).surf_w, 300);
}

#[test]
fn straightening_undoes_premultiplication() {
    let mut buf = vec![10, 20, 30, 100, 1, 2, 3, 0, 7, 8, 9, 255, 42];
    to_straight_rgba(&mut buf);
    assert_eq!(buf, vec![77, 51, 26, 100, 0, 0, 0, 0, 9, 8, 7, 255, 42]);
    for a in 1..=255u8 {
        for p in 0..=a {
            let mut px = vec![0, 0, p, a];
            to_straight_rgba(&mut px);
            assert_eq!(premul(px[0], a), p);
        }
    }
}
