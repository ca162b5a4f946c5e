use pet_render::sprite::sheet::{premul, scale_frame, Sheet};

#[test]
fn slices_premultiplies_and_scales() {
    // 2x1 sheet of 1x1 frames: half-transparent red, opaque green.
    let rgba = [255, 0, 0, 128, 0, 255, 0, 255];
    let mut sheet = Sheet::from_rgba(&rgba, 2, 1, 1, 1).unwrap();
    assert_eq!(sheet.frame_count(), 2);
    // Premultiplied BGRA: red*128/255 = 128 in the R slot (byte 2).
    assert_eq!(sheet.frames_at(1)[0], vec![0, 0, 128, 128]);
    assert_eq!(sheet.frames_at(1)[1], vec![0, 255, 0, 255]);
    // 2x nearest: 4 identical pixels.
    let scaled = &sheet.frames_at(2)[1];
    assert_eq!(scaled.len(), 16);
    assert_eq!(&scaled[..4], &[0, 255, 0, 255]);
    assert_eq!(&scaled[12..], &[0, 255, 0, 255]);
}

#[test]
fn rejects_non_tiling_grid() {
    assert!(Sheet::from_rgba(&[0; 8], 2, 1, 3, 1).is_err());
}

#[test]
fn content_vspan_tracks_visible_rows() {
    // One 1x4 frame: transparent, opaque, opaque, transparent.
    let rgba = [0, 0, 0, 0, 9, 9, 9, 255, 9, 9, 9, 255, 0, 0, 0, 0];
    let sheet = Sheet::from_rgba(&rgba, 1, 4, 1, 4).unwrap();
    assert_eq!(sheet.content_vspan(&[0]), (1, 3));
    // Fully transparent frames fall back to the whole frame.
    let clear = Sheet::from_rgba(&[0; 16], 1, 4, 1, 4).unwrap();
    assert_eq!(clear.content_vspan(&[0]), (0, 4));
    // Aggregation takes the union across frames (sheet is row-major:
    // each row holds one pixel of frame 0 then one of frame 1).
    let rgba2 = [
        0, 0, 0, 0, 0, 0, 0, 0, // y0: both clear
        9, 9, 9, 255, 0, 0, 0, 0, // y1: frame 0 ink
        0, 0, 0, 0, 9, 9, 9, 255, // y2: frame 1 ink
        0, 0, 0, 0, 0, 0, 0, 0, // y3: both clear
    ];
    let two = Sheet::from_rgba(&rgba2, 2, 4, 1, 4).unwrap();
    assert_eq!(two.content_vspan(&[0]), (1, 2));
    assert_eq!(two.content_vspan(&[0, 1]), (1, 3));
}

#[test]
fn refusals_say_why() {
    let grid = Sheet::from_rgba(&[0; 8], 2, 1, 3, 1).err().unwrap();
    assert_eq!(grid.message(), "frame grid 3x1 does not tile sheet 2x1");
    assert!(Sheet::from_rgba(&[0; 8], 2, 1, 0, 1).is_err());
    let size = Sheet::from_rgba(&[0; 7], 2, 1, 1, 1).err().unwrap();
    assert_eq!(size.message(), "rgba buffer size does not match sheet dimensions");
}

#[test]
fn cells_come_in_row_major_order() {
    // 2x2 sheet of 1x1 opaque cells, red channel 10..13.
    let rgba: Vec<u8> = (10..14).flat_map(|r| [r, 0, 0, 255]).collect();
    let mut sheet = Sheet::from_rgba(&rgba, 2, 2, 1, 1).unwrap();
    let reds: Vec<u8> = sheet.frames_at(0).iter().map(|f| f[2]).collect();
    assert_eq!(reds, vec![10, 11, 12, 13]);
    assert_eq!((sheet.frame_width(), sheet.frame_height()), (1, 1));
    // A sheet without pixels has no frames.
    assert_eq!(Sheet::from_rgba(&[], 0, 4, 1, 1).unwrap().frame_count(), 0);
}

#[test]
fn enlarging_repeats_pixels_and_composes() {
    let src: Vec<u8> = (0..2 * 2 * 4).map(|i| i as u8).collect();
    let twice = scale_frame(&src, 2, 2, 2);
    assert_eq!(&twice[..16], &[0, 1, 2, 3, 0, 1, 2, 3, 4, 5, 6, 7, 4, 5, 6, 7]);
    assert_eq!(&twice[16..32], &twice[..16]);
    assert_eq!(scale_frame(&src, 2, 2, 1), src);
    assert_eq!(scale_frame(&twice, 4, 4, 3), scale_frame(&src, 2, 2, 6));
    assert!(scale_frame(&src, 2, 2, 0).is_empty());
}

#[test]
fn premultiplied_channels_never_exceed_alpha() {
    for a in 0..=255u8 {
        for c in 0..=255u8 {
            assert!(premul(c, a) <= a);
        }
        assert_eq!(premul(a, 255), a);
        assert_eq!(premul(a, 0), 0);
    }
    assert_eq!(premul(200, 100), 78);
}

#[test]
fn blank_frames_are_not_visible() {
    let rgba = [0, 0, 0, 0, 9, 9, 9, 1];
    let sheet = Sheet::from_rgba(&rgba, 2, 1, 1, 1).unwrap();
    assert!(!sheet.any_visible(&[0]));
    assert!(sheet.any_visible(&[0, 1]));
    assert!(!sheet.any_visible(&[]));
    assert!(!sheet.any_visible(&[2]));
    assert_eq!(sheet.content_vspan(&[5]), (0, 1));
}
