use pet_render::surface::outputs::{
    clamp_into, logical_size, nearest_output, output_at, resolve, Mode, OutputRect,
};

fn rect(name: &str, x: i32, y: i32, w: i32, h: i32) -> OutputRect {
    OutputRect { name: name.into(), x, y, w, h }
}

fn two_side_by_side() -> Vec<OutputRect> {
    // DP-1 at origin (3440×1440), DP-2 to its right (1920×1080).
    vec![
        rect("DP-1", 0, 0, 3440, 1440),
        rect("DP-2", 3440, 0, 1920, 1080),
    ]
}

#[test]
fn output_at_picks_the_containing_monitor() {
    let outs = two_side_by_side();
    assert_eq!(
        output_at(&outs, 100, 100).map(|o| o.name.as_str()),
        Some("DP-1")
    );
    assert_eq!(
        output_at(&outs, 3500, 200).map(|o| o.name.as_str()),
        Some("DP-2")
    );
    // The right edge of DP-1 (x=3440) belongs to DP-2, not DP-1 (half-open).
    assert_eq!(
        output_at(&outs, 3440, 0).map(|o| o.name.as_str()),
        Some("DP-2")
    );
    assert_eq!(
        output_at(&outs, 3439, 0).map(|o| o.name.as_str()),
        Some("DP-1")
    );
    // Below DP-2 (y>1080) but within DP-1's height gap: off every screen.
    assert_eq!(output_at(&outs, 4000, 1200), None);
}

#[test]
fn nearest_output_is_the_off_screen_fallback() {
    let outs = two_side_by_side();
    // A point off the bottom-right: nearest DP-2 (its centre is closer).
    assert_eq!(
        nearest_output(&outs, 5400, 1400).map(|o| o.name.as_str()),
        Some("DP-2")
    );
    // Far left of everything → DP-1.
    assert_eq!(
        nearest_output(&outs, -500, 700).map(|o| o.name.as_str()),
        Some("DP-1")
    );
    assert_eq!(nearest_output(&[], 0, 0), None);
}

#[test]
fn clamp_into_keeps_the_sprite_fully_on_screen() {
    let r = rect("DP-2", 3440, 0, 1920, 1080);
    let (w, h) = (192, 208);
    // Past the right/bottom edges → pulled back so the sprite fits.
    assert_eq!(
        clamp_into(&r, 9999, 9999, w, h),
        (3440 + 1920 - 192, 1080 - 208)
    );
    // Before the origin → snapped to the origin.
    assert_eq!(clamp_into(&r, 3000, -50, w, h), (3440, 0));
    // Already inside → unchanged.
    assert_eq!(clamp_into(&r, 3500, 100, w, h), (3500, 100));
}

#[test]
fn resolve_maps_global_to_output_local() {
    let outs = two_side_by_side();
    // A point on DP-2 → DP-2 + local coords relative to its origin.
    let (o, lx, ly) = resolve(&outs, 3600, 300).unwrap();
    assert_eq!((o.name.as_str(), lx, ly), ("DP-2", 160, 300));
    // A point on DP-1.
    let (o, lx, ly) = resolve(&outs, 785, 767).unwrap();
    assert_eq!((o.name.as_str(), lx, ly), ("DP-1", 785, 767));
    // Off every screen → nearest output, local coords may be out of its
    // bounds (caller clamps).
    let (o, _, _) = resolve(&outs, 6000, 2000).unwrap();
    assert_eq!(o.name.as_str(), "DP-2");
    assert!(resolve(&[], 0, 0).is_none());
}

#[test]
fn degenerate_output_smaller_than_sprite_pins_to_origin() {
    let r = rect("tiny", 0, 0, 100, 100);
    assert_eq!(clamp_into(&r, 500, 500, 192, 208), (0, 0));
}

#[test]
fn clamping_twice_changes_nothing_more() {
    let r = rect("DP-2", -300, 40, 500, 400);
    for (x, y) in [(-900, 0), (0, 50), (199, 439), (700, 700)] {
        let (cx, cy) = clamp_into(&r, x, y, 192, 208);
        assert_eq!(clamp_into(&r, cx, cy, 192, 208), (cx, cy));
        assert!(cx >= -300 && cx + 192 <= 200 && cy >= 40 && cy + 208 <= 440);
    }
}

#[test]
fn the_first_of_equals_hosts() {
    // Overlapping outputs: the first has the point.
    let same = vec![rect("a", 0, 0, 10, 10), rect("b", 0, 0, 10, 10)];
    assert_eq!(resolve(&same, 3, 3).unwrap().0.name, "a");
    // Equally near centres: the first is taken.
    let apart = vec![rect("l", 0, 0, 10, 10), rect("r", 20, 0, 10, 10)];
    assert_eq!(nearest_output(&apart, 15, 5).unwrap().name, "l");
    assert_eq!(apart[1].center(), (25, 5));
    assert_eq!(rect("odd", -5, -5, 3, -3).center(), (-4, -6));
}

#[test]
fn logical_size_falls_back_to_the_current_mode() {
    let modes = [
        Mode { current: false, w: 800, h: 600 },
        Mode { current: true, w: 3840, h: 2160 },
    ];
    assert_eq!(logical_size(Some((10, 20)), 2, &modes), Some((10, 20)));
    assert_eq!(logical_size(None, 2, &modes), Some((1920, 1080)));
    assert_eq!(logical_size(None, 0, &modes), Some((3840, 2160)));
    assert_eq!(logical_size(None, 1, &modes[..1]), None);
}
