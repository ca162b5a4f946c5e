use pet_render::canvas::{Canvas, Pixel};

#[test]
fn blit_copies_rows_and_respects_bounds() {
    let mut buf = vec![0u8; 4 * 4 * 4];
    let mut canvas = Canvas::new(&mut buf, 4, 4);
    let src = [7u8; 2 * 2 * 4];
    canvas.blit(&src, 2, 2, 1, 1);
    assert_eq!(&canvas.buf[(1 * 4 + 1) * 4..(1 * 4 + 3) * 4], &[7; 8]);
    assert_eq!(&canvas.buf[..4], &[0; 4]);
    // Out of bounds: no-op, no panic.
    canvas.blit(&src, 2, 2, 3, 3);
}

#[test]
fn frame_that_does_not_fit_leaves_the_canvas_alone() {
    let mut buf = vec![9u8; 4 * 4 * 4];
    let mut canvas = Canvas::new(&mut buf, 4, 4);
    let src = [7u8; 2 * 2 * 4];
    canvas.blit(&src, 2, 2, 3, 3);
    canvas.blit_flipped_h(&src, 2, 2, 0, 3);
    assert!(canvas.buf.iter().all(|b| *b == 9));
}

#[test]
fn flipped_blit_reverses_each_row() {
    let src: Vec<u8> = (0..2 * 2 * 4).map(|i| i as u8).collect();
    let mut buf = vec![0u8; 3 * 2 * 4];
    let mut canvas = Canvas::new(&mut buf, 3, 2);
    canvas.blit_flipped_h(&src, 2, 2, 1, 0);
    assert_eq!(&canvas.buf[..4], &[0; 4]);
    assert_eq!(&canvas.buf[4..12], &[4, 5, 6, 7, 0, 1, 2, 3]);
    assert_eq!(&canvas.buf[16..24], &[12, 13, 14, 15, 8, 9, 10, 11]);
}

#[test]
fn flipping_a_mirrored_frame_gives_the_frame() {
    let src: Vec<u8> = (0..3 * 2 * 4).map(|i| (i * 7) as u8).collect();
    let mut mirrored = src.clone();
    Canvas::new(&mut mirrored, 3, 2).blit_flipped_h(&src, 3, 2, 0, 0);
    assert_ne!(mirrored, src);
    let mut plain = vec![0u8; 5 * 4 * 4];
    let mut flipped = vec![0u8; 5 * 4 * 4];
    Canvas::new(&mut plain, 5, 4).blit(&src, 3, 2, 1, 1);
    Canvas::new(&mut flipped, 5, 4).blit_flipped_h(&mirrored, 3, 2, 1, 1);
    assert_eq!(plain, flipped);
}

#[test]
fn clear_zeroes_every_byte() {
    let mut buf = vec![3u8; 10];
    Canvas::new(&mut buf, 1, 2).clear();
    assert_eq!(buf, vec![0u8; 10]);
}

#[test]
fn single_pixels_are_read_and_written_in_bounds_only() {
    let mut buf = vec![0u8; 2 * 2 * 4];
    let mut canvas = Canvas::new(&mut buf, 2, 2);
    let red = Pixel { b: 1, g: 2, r: 3, a: 4 };
    canvas.set_pixel(1, 1, red);
    canvas.set_pixel(-1, 0, red);
    canvas.set_pixel(0, 2, red);
    assert_eq!(canvas.pixel(1, 1), Some(red));
    assert_eq!(canvas.pixel(0, 1), Some(Pixel { b: 0, g: 0, r: 0, a: 0 }));
    assert_eq!(canvas.pixel(2, 0), None);
    assert_eq!(canvas.pixel(0, -1), None);
    assert_eq!(&canvas.buf[12..], &[1, 2, 3, 4]);
    assert_eq!(&canvas.buf[..12], &[0; 12]);
}
