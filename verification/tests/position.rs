use pet_render::surface::outputs::{resolve, OutputRect};
use pet_render::surface::position::{default_true, LegacyPosition, Loaded, Position};

fn rect(name: &str, x: i32, y: i32, w: i32, h: i32) -> OutputRect {
    OutputRect { name: name.into(), x, y, w, h }
}

#[test]
fn migrate_adds_the_named_outputs_origin() {
    let outs = vec![
        rect("DP-1", 0, 0, 3440, 1440),
        rect("DP-2", 3440, 0, 1920, 1080),
    ];
    let legacy = LegacyPosition {
        output_name: Some("DP-2".into()),
        margin_x: 100,
        margin_y: 200,
        visible: false,
    };
    assert_eq!(
        legacy.migrate(&outs),
        Some(Position {
            x: 3540,
            y: 200,
            visible: false
        })
    );
}

#[test]
fn migrate_falls_back_to_the_first_output() {
    let outs = vec![rect("DP-1", 100, 50, 3440, 1440)];
    // Unknown name and no name at all both land on the first output.
    for name in [Some("gone".to_string()), None] {
        let legacy = LegacyPosition {
            output_name: name,
            margin_x: 10,
            margin_y: 20,
            visible: true,
        };
        assert_eq!(
            legacy.migrate(&outs),
            Some(Position {
                x: 110,
                y: 70,
                visible: true
            })
        );
    }
}

#[test]
fn migrate_waits_for_outputs() {
    let legacy = LegacyPosition {
        output_name: None,
        margin_x: 10,
        margin_y: 20,
        visible: true,
    };
    assert_eq!(legacy.migrate(&[]), None);
}

#[test]
fn global_shape_wins_over_the_legacy_one() {
    let p = Position { x: 1, y: 2, visible: false };
    let l = || LegacyPosition { output_name: None, margin_x: 3, margin_y: 4, visible: true };
    assert_eq!(Position::load(Some(p), Some(l())), Loaded::Global(p));
    assert_eq!(Position::load(None, Some(l())), Loaded::Legacy(l()));
    assert_eq!(Position::load(None, None), Loaded::Missing);
    assert!(default_true());
}

#[test]
fn state_file_lies_below_the_state_directory() {
    assert_eq!(Position::state_path(Some("/s"), None), "/s/agent-pet/position.json");
    assert_eq!(
        Position::state_path(None, Some("/home/u")),
        "/home/u/.local/state/agent-pet/position.json"
    );
    assert_eq!(Position::state_path(None, None), "/.local/state/agent-pet/position.json");
    assert_eq!(Position::state_path(Some(""), None), "agent-pet/position.json");
}

#[test]
fn migrated_positions_resolve_to_their_margins() {
    let outs = vec![rect("DP-1", 0, 0, 3440, 1440), rect("DP-2", 3440, -200, 1920, 1080)];
    let legacy = LegacyPosition {
        output_name: Some("DP-2".into()),
        margin_x: 100,
        margin_y: 1079,
        visible: true,
    };
    let at = legacy.migrate(&outs).unwrap();
    let (host, x, y) = resolve(&outs, at.x, at.y).unwrap();
    assert_eq!((host.name.as_str(), x, y), ("DP-2", 100, 1079));
}
