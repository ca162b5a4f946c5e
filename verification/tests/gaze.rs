use pet_render::sprite::gaze::{
    gaze_frame, sector_to_index, GazeFrame, GAZE_ROW_HI, GAZE_ROW_LO, SECTORS,
};

/// Sector of a cursor at (dx, dy) from the pet centre, y pointing down.
fn sector(dx: f64, dy: f64, deadzone_px: f64) -> Option<i32> {
    if !dx.is_finite() || !dy.is_finite() || dx.hypot(dy) <= deadzone_px {
        return None;
    }
    let deg = (dx.atan2(-dy).to_degrees() + 360.0) % 360.0;
    Some((((deg / 22.5).round() as i32) % SECTORS + SECTORS) % SECTORS)
}

fn gaze(dx: f64, dy: f64, deadzone_px: f64, columns: usize) -> Option<GazeFrame> {
    gaze_frame(sector(dx, dy, deadzone_px), columns)
}

// Canonical 8-column sheet: source gaze frames are 72..=80; the left half
// reuses 73..=79 mirrored.
#[test]
fn cardinals_and_the_left_mirror() {
    let dz = 8.0;
    let f = |dx, dy| gaze(dx, dy, dz, 8).unwrap();
    // up → cell 72, no flip.
    assert_eq!(f(0.0, -100.0), GazeFrame { index: 72, flip_h: false });
    // right → cell 76, no flip.
    assert_eq!(f(100.0, 0.0), GazeFrame { index: 76, flip_h: false });
    // down → cell 80, no flip.
    assert_eq!(f(0.0, 100.0), GazeFrame { index: 80, flip_h: false });
    // left → the RIGHT cell 76, flipped (not a separate cell 84).
    assert_eq!(f(-100.0, 0.0), GazeFrame { index: 76, flip_h: true });
}

#[test]
fn diagonals_reuse_right_frames_on_the_left() {
    let dz = 8.0;
    let f = |dx, dy| gaze(dx, dy, dz, 8).unwrap();
    assert_eq!(f(100.0, -100.0), GazeFrame { index: 74, flip_h: false }); // up-right, sector 2
    assert_eq!(f(100.0, 100.0), GazeFrame { index: 78, flip_h: false }); // down-right, sector 6
    // down-left (sector 10) mirrors down-right (sector 6) → cell 78 flipped.
    assert_eq!(f(-100.0, 100.0), GazeFrame { index: 78, flip_h: true });
    // up-left (sector 14) mirrors up-right (sector 2) → cell 74 flipped.
    assert_eq!(f(-100.0, -100.0), GazeFrame { index: 74, flip_h: true });
}

#[test]
fn deadzone_and_nonfinite_yield_no_gaze() {
    assert_eq!(gaze(3.0, 4.0, 5.0, 8), None); // hypot 5 == deadzone
    assert_eq!(gaze(0.0, 0.0, 8.0, 8), None);
    assert_eq!(gaze(f64::NAN, 10.0, 1.0, 8), None);
}

#[test]
fn wraparound_near_360_stays_up() {
    // A hair counter-clockwise of straight up (≈ -1°) must round back to
    // sector 0, not 16.
    assert_eq!(
        gaze(-1.0, -1000.0, 1.0, 8),
        Some(GazeFrame { index: 72, flip_h: false })
    );
}

#[test]
fn only_source_cells_72_to_80_are_used_and_cover_the_circle() {
    // Sweep a full circle: every frame is one of the 9 source cells
    // 72..=80, and the left half is served by flips.
    let mut used = std::collections::BTreeSet::new();
    let mut saw_flip = false;
    for deg in 0..360 {
        let (dx, dy) = ((deg as f64).to_radians().sin(), -(deg as f64).to_radians().cos());
        if let Some(g) = gaze(dx * 100.0, dy * 100.0, 1.0, 8) {
            assert!((72..=80).contains(&g.index), "index {} out of source range", g.index);
            let row = g.index / 8;
            assert!(row == GAZE_ROW_LO || row == GAZE_ROW_HI);
            used.insert(g.index);
            saw_flip |= g.flip_h;
        }
    }
    assert_eq!(used.iter().min(), Some(&72));
    assert_eq!(used.iter().max(), Some(&80));
    assert!(saw_flip, "left-half directions must use flipped frames");
}

#[test]
fn mirrored_sectors_share_a_cell() {
    for s in 1..8 {
        let right = gaze_frame(Some(s), 11).unwrap();
        let left = gaze_frame(Some(16 - s), 11).unwrap();
        assert_eq!(right.index, left.index);
        assert!(!right.flip_h && left.flip_h);
    }
    assert_eq!(sector_to_index(7, 10), 97);
    assert_eq!(sector_to_index(8, 10), 100);
}
