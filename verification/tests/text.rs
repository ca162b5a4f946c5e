use pet_render::text::{glyph_ink, glyph_revealed, line_starts, truncate_lines, GlyphKind, Ink, Run};

#[test]
fn line_starts_maps_buffer_lines_to_byte_offsets() {
    assert_eq!(line_starts("ab\ncd\n\ne"), vec![0, 3, 6, 7]);
    assert_eq!(line_starts("abc"), vec![0]);
}

#[test]
fn lines_start_after_multibyte_characters() {
    assert_eq!(line_starts("é\nx\n"), vec![0, 3, 5]);
    assert_eq!(line_starts(""), vec![0]);
}

fn runs(ends: &[(usize, usize)]) -> Vec<Run> {
    ends.iter().map(|&(line_i, end)| Run { line_i, end }).collect()
}

#[test]
fn dropped_lines_end_in_an_ellipsis() {
    let text = "one two three four";
    // "one ", "two ", "three ", "four": cut behind the second run.
    let r = runs(&[(0, 4), (0, 8), (0, 14), (0, 18)]);
    assert_eq!(truncate_lines(text, &r, 2), "one tw…");
    assert_eq!(truncate_lines(text, &r, 4), text);
    assert_eq!(truncate_lines(text, &r, 9), text);
    assert_eq!(truncate_lines(text, &r, 0), "…");
}

#[test]
fn cuts_count_from_the_buffer_line() {
    let text = "héé\nzwei drei";
    let r = runs(&[(0, 5), (1, 5), (1, 9)]);
    assert_eq!(truncate_lines(text, &r, 1), "hé…");
    assert_eq!(truncate_lines(text, &r, 2), "héé\nzwe…");
    // Nothing left of the kept line but white space.
    assert_eq!(truncate_lines("  \nab", &runs(&[(0, 2), (1, 2)]), 1), "…");
}

#[test]
fn glyphs_appear_at_their_byte() {
    let starts = [0, 3];
    assert!(glyph_revealed(&starts, 1, 2, None));
    assert!(glyph_revealed(&starts, 1, 2, Some(6)));
    assert!(!glyph_revealed(&starts, 1, 2, Some(5)));
    assert!(!glyph_revealed(&starts, 0, 0, Some(0)));
}

#[test]
fn glyph_pixels_come_row_by_row() {
    let mask = glyph_ink(GlyphKind::Mask, 2, 2, &[1, 2, 3, 4]);
    assert_eq!(mask[2], Ink { x: 0, y: 1, rgb: None, alpha: 3 });
    assert_eq!(mask.len(), 4);
    let color = glyph_ink(GlyphKind::Color, 1, 2, &[1, 2, 3, 4, 5, 6, 7, 8]);
    assert_eq!(color[1], Ink { x: 0, y: 1, rgb: Some((5, 6, 7)), alpha: 8 });
    let sub = glyph_ink(GlyphKind::SubpixelMask, 2, 1, &[1, 2, 3, 4, 5, 6]);
    assert_eq!(sub[1], Ink { x: 1, y: 0, rgb: None, alpha: 4 });
    assert!(glyph_ink(GlyphKind::Mask, -1, 4, &[]).is_empty());
}
