use pet_render::input::router::Rect;
use pet_render::surface::mascot::{Configured, Mascot};
use pet_render::surface::surface_set::{OutputSurface, Remap, SurfaceSet};
use pet_render::surface::visibility::Visibility;

#[test]
fn layout_flips_near_the_top_and_left_edges() {
    let mut m = Mascot::create(192, 208, 1, true);
    assert_eq!(m.surface_size(), (280, 308));
    m.relayout((500, 400));
    assert_eq!((m.layout.mascot_x, m.layout.mascot_y), (88, 100));
    assert_eq!(m.apply_margins((500, 400)), (300, 412));
    m.relayout((87, 99));
    assert!(!m.layout.bubble_above && !m.layout.anchor_right);
    assert_eq!(m.apply_margins((87, 99)), (99, 87));
    m.relayout((88, 100));
    assert_eq!(m.apply_margins((88, 100)), (0, 0));
    assert_eq!(m.sprite_rect(), Rect { x: 88, y: 100, w: 192, h: 208 });
}

#[test]
fn margins_are_never_negative_on_screen() {
    let mut m = Mascot::create(64, 64, 1, true);
    for x in (0..600).step_by(7) {
        for y in (0..300).step_by(11) {
            m.relayout((x, y));
            let (top, left) = m.apply_margins((x, y));
            assert!(top >= 0 && left >= 0);
            assert_eq!(left + m.sprite_rect().x, x);
            assert_eq!(top + m.sprite_rect().y, y);
        }
    }
}

#[test]
fn wide_sprites_widen_the_surface() {
    let m = Mascot::create(400, 10, 2, false);
    assert_eq!(m.surface_size(), (400, 110));
    assert_eq!(m.layout.mascot_x, 0);
    assert_eq!(m.visibility, Visibility::Hidden);
}

#[test]
fn hiding_and_showing_needs_a_configure() {
    let mut m = Mascot::create(10, 10, 1, true);
    assert_eq!(m.visibility, Visibility::Remapping);
    assert_eq!(m.configure(), Configured::Revealed);
    assert!(m.visibility.shown());
    assert_eq!(m.configure(), Configured::Refreshed);
    m.unmap();
    assert!(!m.configured && !m.visibility.shown());
    assert_eq!(m.configure(), Configured::Quiet);
    m.unmap();
    assert_eq!(m.request_remap((300, 200)), (100, 30));
    assert_eq!(m.visibility, Visibility::Remapping);
    assert_eq!(m.configure(), Configured::Revealed);
    assert_eq!(Visibility::default(), Visibility::Visible);
}

#[test]
fn bubble_box_becomes_input_in_logical_pixels() {
    let mut m = Mascot::create(100, 50, 1, true);
    assert!(m.set_output_scale(2));
    assert!(!m.set_output_scale(2));
    assert!(!m.set_output_scale(0));
    let sprite = m.sprite_rect();
    let region = m.bubble_drawn(Some((-3, 21, 41, 40))).unwrap();
    assert_eq!(region, vec![sprite, Rect { x: -1, y: 10, w: 20, h: 20 }]);
    // The same box again changes nothing.
    assert_eq!(m.bubble_drawn(Some((-2, 20, 40, 40))), None);
    assert_eq!(m.update_input_region(), region);
    assert_eq!(m.bubble_drawn(None), Some(vec![sprite]));
    assert_eq!(m.geometry().oscale, 2);
    m.scale_refused();
    assert_eq!(m.geometry().oscale, 1);
}

#[test]
fn one_surface_per_output() {
    let mut set = SurfaceSet::new(192, 208, 1, true);
    assert_eq!(set.first_output(), None);
    assert!(set.add_for_output(10, 100));
    assert!(!set.add_for_output(10, 101));
    assert!(set.add_for_output(20, 200));
    assert_eq!(set.first_output(), Some(10));
    assert_eq!(
        set.by_output(20),
        Some(&OutputSurface { output: 20, surface: 200, configured: false, scale: 1 })
    );
    assert_eq!(set.by_surface(101), None);
    assert_eq!(set.by_surface(200), Some(1));
    assert!(set.remove_output(10));
    assert!(!set.remove_output(10));
    assert_eq!(set.first_output(), Some(20));
    assert!(set.add_for_output(10, 102));
    assert_eq!(set.surfaces.len(), 2);
    assert_eq!(set.surface_size(), (280, 308));
}

#[test]
fn unmapped_surfaces_are_asked_for_again() {
    let mut set = SurfaceSet::new(192, 208, 1, true);
    set.add_for_output(1, 11);
    set.add_for_output(2, 12);
    set.add_for_output(3, 13);
    assert_eq!(set.configure(12), Some((2, true)));
    assert_eq!(set.configure(12), Some((2, false)));
    assert_eq!(set.configure(99), None);
    set.relayout((500, 400));
    assert_eq!(
        set.request_remap_all(Some(3), (500, 400)),
        vec![Remap { output: 1, top: 0, left: 0 }, Remap { output: 3, top: 300, left: 412 }]
    );
    set.unmap_all();
    assert_eq!(set.visibility, Visibility::Hidden);
    assert_eq!(set.request_remap_all(None, (500, 400)).len(), 3);
    assert_eq!(set.apply_margins(2, (500, 400)), Some((300, 412)));
    assert_eq!(set.apply_margins(4, (500, 400)), None);
}

#[test]
fn inactive_surfaces_are_click_through() {
    let mut set = SurfaceSet::new(192, 208, 1, false);
    set.add_for_output(1, 11);
    assert_eq!(set.update_input_region(1), Some(vec![set.sprite_rect()]));
    assert_eq!(set.clear_input_region(1), Some(vec![]));
    assert_eq!(set.update_input_region(2), None);
    assert_eq!(set.clear_input_region(2), None);
}
