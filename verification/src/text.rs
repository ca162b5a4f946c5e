//! What the bubble does with shaped text: where its lines start, where it is
//! cut, which glyphs are revealed, and which pixels a glyph inks. Shaping and
//! blending happen elsewhere; all coordinates are physical pixels.

use vstd::prelude::*;

use crate::strings::chars_of;
use crate::strings::trim_end;

verus! {

/// Offsets at which the `\n`-separated lines of a text begin.
pub open spec fn starts_of(bytes: Seq<u8>) -> Seq<int>
    decreases bytes.len(),
{
    if bytes.len() == 0 {
        seq![0]
    } else if bytes.last() == 10 {
        starts_of(bytes.drop_last()).push(bytes.len() as int)
    } else {
        starts_of(bytes.drop_last())
    }
}

/// Offsets as mathematical integers.
pub open spec fn offsets(v: Seq<usize>) -> Seq<int> {
    v.map_values(|n: usize| n as int)
}

/// Byte offset of each `\n`-separated line, indexed by buffer-line index
/// (glyph byte offsets are line-relative).
pub fn line_starts(text: &str) -> (starts: Vec<usize>)
    ensures
        offsets(starts@) == starts_of(vstd::utf8::encode_utf8(text@)),
        starts@.len() >= 1,
{
    let bytes: &[u8] = text.as_bytes();
    let mut starts: Vec<usize> = Vec::new();
    starts.push(0);
    let mut i: usize = 0;
    assert(bytes@.take(0) =~= Seq::<u8>::empty());
    assert(offsets(starts@) =~= starts_of(bytes@.take(0)));
    while i < bytes.len()
        invariant
            i <= bytes@.len(),
            starts@.len() >= 1,
            offsets(starts@) == starts_of(bytes@.take(i as int)),
        decreases bytes@.len() - i,
    {
        assert(bytes@.take(i + 1).drop_last() =~= bytes@.take(i as int));
        if bytes[i] == 10 {
            let ghost before = starts@;
            starts.push(i + 1);
            assert(offsets(starts@) =~= offsets(before).push(i + 1));
        }
        i += 1;
    }
    assert(bytes@.take(i as int) =~= bytes@);
    starts
}

/// One wrapped line of a laid-out text: the buffer line it belongs to, and the
/// line-relative byte at which its last glyph ends (0 without glyphs).
#[derive(Debug, Clone, Copy, PartialEq, Eq, Structural)]
pub struct Run {
    pub line_i: usize,
    pub end: usize,
}

/// Byte at which a text of more than `max_lines` runs is cut.
pub open spec fn cut_at(text: Seq<char>, runs: Seq<Run>, max_lines: int) -> int {
    if max_lines == 0 {
        0
    } else {
        starts_of(vstd::utf8::encode_utf8(text))[runs[max_lines - 1].line_i as int] + runs[max_lines - 1].end
    }
}

/// The runs belong to the text, as far as cutting it looks at them: the last
/// line kept is a line of the text, and it ends at a character.
pub open spec fn can_cut(text: Seq<char>, runs: Seq<Run>, max_lines: int) -> bool {
    let bytes = vstd::utf8::encode_utf8(text);
    &&& max_lines > 0 && runs.len() >= max_lines ==> runs[max_lines - 1].line_i < starts_of(bytes).len() && cut_at(
        text,
        runs,
        max_lines,
    ) <= usize::MAX
    &&& runs.len() > max_lines ==> cut_at(text, runs, max_lines) <= bytes.len() && vstd::utf8::is_char_boundary(
        bytes,
        cut_at(text, runs, max_lines),
    )
}

/// A text cut short: trailing white space goes, and the last character left
/// makes room for an ellipsis.
pub open spec fn with_ellipsis(head: Seq<char>) -> Seq<char> {
    let kept = crate::strings::trimmed_end(head);
    (if kept.len() == 0 {
        kept
    } else {
        kept.drop_last()
    }).push('\u{2026}')
}

/// Cut `text` to at most `max_lines` wrapped lines, appending an
/// ellipsis when something was dropped.
pub fn truncate_lines(text: &str, runs: &[Run], max_lines: usize) -> (cut: String)
    requires
        can_cut(text@, runs@, max_lines as int),
    ensures
        cut@ == if runs@.len() <= max_lines {
            text@
        } else {
            with_ellipsis(
                vstd::utf8::decode_utf8(
                    vstd::utf8::encode_utf8(text@).take(cut_at(text@, runs@, max_lines as int)),
                ),
            )
        },
{
    if runs.len() <= max_lines {
        return text.to_owned();
    }
    let starts: Vec<usize> = line_starts(text);
    let end: usize = if max_lines == 0 {
        0
    } else {
        let last: Run = runs[max_lines - 1];
        assert(offsets(starts@)[last.line_i as int] == starts@[last.line_i as int]);
        starts[last.line_i] + last.end
    };
    let head: &str = text.split_at(end).0;
    let ghost bytes = vstd::utf8::encode_utf8(text@);
    proof {
        vstd::utf8::encode_utf8_decode_utf8(head@);
        assert(bytes.take(end as int) =~= bytes.subrange(0, end as int));
    }
    let kept: &str = trim_end(head);
    let v: Vec<char> = chars_of(kept);
    let mut cut: String = if v.len() == 0 {
        kept.to_owned()
    } else {
        assert(kept@.subrange(0, v@.len() - 1) =~= kept@.drop_last());
        kept.substring_char(0, v.len() - 1).to_owned()
    };
    let ghost before = cut@;
    proof {
        reveal_strlit("\u{2026}");
    }
    cut.append("\u{2026}");
    assert(cut@ =~= before.push('\u{2026}'));
    cut
}

/// A text that fits is kept as it is; one that is cut never gets longer than
/// what was kept of it and an ellipsis.
pub proof fn ellipsis_replaces_a_character(head: Seq<char>)
    ensures
        with_ellipsis(head).len() <= head.len() + 1,
        crate::strings::trimmed_end(head).len() > 0 ==> with_ellipsis(head).len() <= head.len(),
        with_ellipsis(head).last() == '\u{2026}',
{
    lemma_trimmed_end_len(head);
}

proof fn lemma_trimmed_end_len(s: Seq<char>)
    ensures
        crate::strings::trimmed_end(s).len() <= s.len(),
    decreases s.len(),
{
    if s.len() > 0 && crate::strings::is_white(s.last()) {
        lemma_trimmed_end_len(s.drop_last());
    }
}

/// Whether a glyph starting at `start` of buffer line `line_i` is revealed:
/// it starts before `limit` (byte offset into the text; `None` = all).
pub fn glyph_revealed(starts: &[usize], line_i: usize, start: usize, limit: Option<usize>) -> (yes: bool)
    requires
        limit is Some ==> line_i < starts@.len() && starts@[line_i as int] + start <= usize::MAX,
    ensures
        yes == match limit {
            Some(l) => starts@[line_i as int] + start < l,
            None => true,
        },
{
    match limit {
        Some(l) => starts[line_i] + start < l,
        None => true,
    }
}

/// What a rasterized glyph's bytes mean.
#[derive(Debug, Clone, Copy, PartialEq, Eq, Structural)]
pub enum GlyphKind {
    /// One coverage byte per pixel.
    Mask,
    /// Four bytes per pixel: red, green, blue, alpha.
    Color,
    /// Three coverage bytes per pixel; the first counts.
    SubpixelMask,
}

/// One pixel of a glyph: its place in the glyph's box, its own color where it
/// has one, and its coverage.
#[derive(Debug, Clone, Copy, PartialEq, Eq)]
pub struct Ink {
    pub x: i32,
    pub y: i32,
    pub rgb: Option<(u8, u8, u8)>,
    pub alpha: u8,
}

/// Bytes that a pixel takes.
pub open spec fn stride(kind: GlyphKind) -> int {
    match kind {
        GlyphKind::Mask => 1,
        GlyphKind::Color => 4,
        GlyphKind::SubpixelMask => 3,
    }
}

/// The pixel at (x, y) of a glyph `w` wide.
pub open spec fn ink_at(kind: GlyphKind, w: int, data: Seq<u8>, x: int, y: int) -> Ink {
    let i = (y * w + x) * stride(kind);
    match kind {
        GlyphKind::Color => Ink {
            x: x as i32,
            y: y as i32,
            rgb: Some((data[i], data[i + 1], data[i + 2])),
            alpha: data[i + 3],
        },
        _ => Ink { x: x as i32, y: y as i32, rgb: None, alpha: data[i] },
    }
}

/// The pixels of a rasterized glyph, row by row.
pub fn glyph_ink(kind: GlyphKind, w: i32, h: i32, data: &[u8]) -> (ink: Vec<Ink>)
    requires
        w > 0 && h > 0 ==> w * h * stride(kind) <= i32::MAX && w * h * stride(kind) <= data@.len(),
    ensures
        w <= 0 || h <= 0 ==> ink@.len() == 0,
        w > 0 && h > 0 ==> ink@.len() == w * h && forall|x: int, y: int|
            0 <= x < w && 0 <= y < h ==> #[trigger] ink@[y * w + x] == ink_at(kind, w as int, data@, x, y),
{
    let mut ink: Vec<Ink> = Vec::new();
    if w <= 0 || h <= 0 {
        return ink;
    }
    let n: i32 = match kind {
        GlyphKind::Mask => 1,
        GlyphKind::Color => 4,
        GlyphKind::SubpixelMask => 3,
    };
    let mut y: i32 = 0;
    assert(0 * w == 0);
    while y < h
        invariant
            0 < w,
            0 <= y <= h,
            n == stride(kind),
            w * h * n <= i32::MAX,
            w * h * n <= data@.len(),
            ink@.len() == y * w,
            forall|k: int|
                0 <= k < ink@.len() ==> #[trigger] ink@[k] == ink_at(kind, w as int, data@, k % (w as int), k / (w as int)),
        decreases h - y,
    {
        let mut x: i32 = 0;
        while x < w
            invariant
                0 <= x <= w,
                0 < w,
                0 <= y < h,
                n == stride(kind),
                w * h * n <= i32::MAX,
                w * h * n <= data@.len(),
                ink@.len() == y * w + x,
                forall|k: int|
                    0 <= k < ink@.len() ==> #[trigger] ink@[k] == ink_at(
                        kind,
                        w as int,
                        data@,
                        k % (w as int),
                        k / (w as int),
                    ),
            decreases w - x,
        {
            let ghost p = y * w + x;
            proof {
                lemma_ink_room(w as int, h as int, n as int, x as int, y as int);
                vstd::arithmetic::div_mod::lemma_fundamental_div_mod_converse(p, w as int, y as int, x as int);
            }
            let i: usize = ((y * w + x) * n) as usize;
            ink.push(
                match kind {
                    GlyphKind::Color => Ink {
                        x,
                        y,
                        rgb: Some((data[i], data[i + 1], data[i + 2])),
                        alpha: data[i + 3],
                    },
                    _ => Ink { x, y, rgb: None, alpha: data[i] },
                },
            );
            x += 1;
        }
        assert((y + 1) * w == y * w + w) by (nonlinear_arith);
        y += 1;
    }
    proof {
        assert(h * w == w * h) by (nonlinear_arith);
        assert forall|x: int, y: int| 0 <= x < w && 0 <= y < h implies #[trigger] ink@[y * w + x] == ink_at(
            kind,
            w as int,
            data@,
            x,
            y,
        ) by {
            lemma_ink_room(w as int, h as int, n as int, x, y);
            vstd::arithmetic::div_mod::lemma_fundamental_div_mod_converse(y * w + x, w as int, y, x);
        }
    }
    ink
}

/// A pixel's bytes lie in the glyph's data.
proof fn lemma_ink_room(w: int, h: int, n: int, x: int, y: int)
    requires
        0 <= x < w,
        0 <= y < h,
        1 <= n,
    ensures
        0 <= y * w,
        0 <= y * w + x < w * h,
        0 <= (y * w + x) * n,
        (y * w + x) * n + n <= w * h * n,
        y * w + x <= (y * w + x) * n,
{
    assert(0 <= y * w) by (nonlinear_arith)
        requires
            0 <= y,
            0 <= w,
    ;
    assert((y + 1) * w <= h * w) by (nonlinear_arith)
        requires
            y + 1 <= h,
            0 <= w,
    ;
    assert((y + 1) * w == y * w + w) by (nonlinear_arith);
    assert(h * w == w * h) by (nonlinear_arith);
    let p = y * w + x;
    assert((p + 1) * n <= w * h * n) by (nonlinear_arith)
        requires
            p + 1 <= w * h,
            0 <= n,
    ;
    assert((p + 1) * n == p * n + n) by (nonlinear_arith);
    assert(p <= p * n && 0 <= p * n) by (nonlinear_arith)
        requires
            0 <= p,
            1 <= n,
    ;
}

/// Lines start at the beginning of the text and right after each newline, in
/// order, and nowhere else.
pub proof fn lines_start_after_newlines(bytes: Seq<u8>)
    ensures
        starts_of(bytes).len() >= 1,
        starts_of(bytes)[0] == 0,
        forall|k: int|
            1 <= k < starts_of(bytes).len() ==> 1 <= #[trigger] starts_of(bytes)[k] <= bytes.len()
                && bytes[starts_of(bytes)[k] - 1] == 10,
        forall|j: int, k: int|
            0 <= j < k < starts_of(bytes).len() ==> #[trigger] starts_of(bytes)[j] < #[trigger] starts_of(bytes)[k],
        forall|i: int|
            0 <= i < bytes.len() && #[trigger] bytes[i] == 10 ==> starts_of(bytes).contains(i + 1),
    decreases bytes.len(),
{
    if bytes.len() > 0 {
        let rest = bytes.drop_last();
        let s = starts_of(rest);
        let all = starts_of(bytes);
        lines_start_after_newlines(rest);
        assert forall|k: int| 1 <= k < all.len() implies 1 <= #[trigger] all[k] <= bytes.len() && bytes[all[k] - 1]
            == 10 by {
            if k < s.len() {
                assert(all[k] == s[k]);
                assert(rest[s[k] - 1] == bytes[s[k] - 1]);
            }
        }
        assert forall|i: int| 0 <= i < bytes.len() && #[trigger] bytes[i] == 10 implies all.contains(i + 1) by {
            if i < rest.len() {
                assert(rest[i] == bytes[i]);
                let k = choose|k: int| 0 <= k < s.len() && s[k] == i + 1;
                assert(all[k] == i + 1);
            } else {
                assert(all[all.len() - 1] == i + 1);
            }
        }
    }
}

/// A text is cut only where it has more lines than may stay; what is left of a
/// cut one is a beginning of its kept part, without white space at the end and
/// without one more character, and then the ellipsis.
pub proof fn cut_texts_begin_as_before(text: &str, runs: &[Run], max_lines: usize, cut: String) -> (n: int)
    requires
        call_ensures(truncate_lines, (text, runs, max_lines), cut),
    ensures
        runs@.len() <= max_lines ==> cut@ == text@,
        runs@.len() > max_lines ==> {
            let head = vstd::utf8::decode_utf8(
                vstd::utf8::encode_utf8(text@).take(cut_at(text@, runs@, max_lines as int)),
            );
            &&& 0 <= n <= head.len()
            &&& cut@ == head.take(n).push('\u{2026}')
            &&& n < head.len() ==> forall|k: int| n < k < head.len() ==> crate::strings::is_white(#[trigger] head[k])
            &&& n < head.len() && head.len() > 0 ==> !crate::strings::is_white(head[n]) || n == 0
            &&& n == head.len() ==> n == 0
        },
{
    if runs@.len() <= max_lines {
        0
    } else {
        let head = vstd::utf8::decode_utf8(
            vstd::utf8::encode_utf8(text@).take(cut_at(text@, runs@, max_lines as int)),
        );
        let j = crate::strings::trimming_the_end_takes_only_white_space(head);
        let n = if j == 0 {
            0
        } else {
            j - 1
        };
        assert(cut@ =~= head.take(n).push('\u{2026}'));
        n
    }
}

/// A text is cut at the end of the last line that stays: where its line of the
/// text starts, and on for as long as the line's own glyphs go.
pub proof fn cuts_come_at_the_end_of_a_line(text: Seq<char>, runs: Seq<Run>, max_lines: int)
    requires
        can_cut(text, runs, max_lines),
        0 <= max_lines < runs.len(),
    ensures
        max_lines == 0 ==> cut_at(text, runs, max_lines) == 0,
        max_lines > 0 ==> cut_at(text, runs, max_lines) - runs[max_lines - 1].end == starts_of(
            vstd::utf8::encode_utf8(text),
        )[runs[max_lines - 1].line_i as int],
{
}

/// A glyph's pixels are its bytes, row by row: one coverage byte each for a
/// mask, red, green, blue and alpha for a color glyph, and of three coverages
/// the first.
pub proof fn glyph_pixels_are_its_bytes(
    kind: GlyphKind,
    w: i32,
    h: i32,
    data: &[u8],
    ink: Vec<Ink>,
    x: int,
    y: int,
)
    requires
        call_ensures(glyph_ink, (kind, w, h, data), ink),
        0 <= x < w,
        0 <= y < h,
    ensures
        ({
            let p = y * w + x;
            let i = ink@[p];
            &&& ink@.len() == w * h
            &&& i.x == x
            &&& i.y == y
            &&& kind is Mask ==> i.rgb is None && i.alpha == data@[p]
            &&& kind is SubpixelMask ==> i.rgb is None && i.alpha == data@[3 * p]
            &&& kind is Color ==> i.rgb == Some((data@[4 * p], data@[4 * p + 1], data@[4 * p + 2])) && i.alpha
                == data@[4 * p + 3]
        }),
{
    assert(ink@[y * w + x] == ink_at(kind, w as int, data@, x, y));
}

/// A glyph is out exactly if the text up to and with its first byte is.
pub proof fn glyphs_come_with_their_first_byte(
    starts: &[usize],
    line_i: usize,
    start: usize,
    limit: usize,
    yes: bool,
    always: bool,
)
    requires
        call_ensures(glyph_revealed, (starts, line_i, start, Some(limit)), yes),
        call_ensures(glyph_revealed, (starts, line_i, start, None), always),
    ensures
        yes <==> starts@[line_i as int] + start + 1 <= limit,
        always,
{
}

} // verus!
