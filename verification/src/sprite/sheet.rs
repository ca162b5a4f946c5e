//! Spritesheet slicing: per-frame buffers in the exact layout wl_shm wants
//! (ARGB8888 = B,G,R,A bytes on little-endian, premultiplied).

use std::collections::HashMap;

use vstd::prelude::*;

use crate::strings::decimal;

verus! {

broadcast use vstd::std_specs::hash::group_hash_axioms;

/// A color channel multiplied by its alpha, rounded to nearest.
pub open spec fn premultiplied(c: u8, a: u8) -> u8 {
    ((c * a + 127) / 255) as u8
}

pub fn premul(c: u8, a: u8) -> (p: u8)
    ensures
        p == premultiplied(c, a),
        p <= a,
        a == 255 ==> p == c,
        a == 0 ==> p == 0,
{
    proof {
        assert(0 <= c * a <= 255 * a) by (nonlinear_arith)
            requires
                0 <= c <= 255,
                0 <= a,
        ;
        assert(a == 255 ==> c * a == c * 255);
        assert(a == 0 ==> c * a == 0);
    }
    ((c as u16 * a as u16 + 127) / 255) as u8
}

/// Whether frames tile a sheet without remainder.
pub open spec fn tiles(sheet_w: u32, sheet_h: u32, frame_w: u32, frame_h: u32) -> bool {
    frame_w != 0 && frame_h != 0 && sheet_w % frame_w == 0 && sheet_h % frame_h == 0
}

/// The frame at (row, col) of a straight-alpha RGBA sheet, as premultiplied
/// B,G,R,A bytes.
pub open spec fn cell(rgba: Seq<u8>, sheet_w: int, frame_w: int, frame_h: int, row: int, col: int) -> Seq<u8> {
    Seq::new(
        (frame_w * frame_h * 4) as nat,
        |i: int|
            {
                let y = (i / 4) / frame_w;
                let x = (i / 4) % frame_w;
                let at = ((row * frame_h + y) * sheet_w + col * frame_w + x) * 4;
                let a = rgba[at + 3];
                if i % 4 == 3 {
                    a
                } else {
                    premultiplied(rgba[at + 2 - i % 4], a)
                }
            },
    )
}

/// The frame enlarged by an integer factor: every pixel becomes a
/// `factor`x`factor` block.
pub open spec fn enlarged(src: Seq<u8>, w: int, h: int, factor: int) -> Seq<u8> {
    Seq::new(
        ((w * factor) * (h * factor) * 4) as nat,
        |i: int|
            {
                let y = (i / 4) / (w * factor);
                let x = (i / 4) % (w * factor);
                src[((y / factor) * w + x / factor) * 4 + i % 4]
            },
    )
}

/// Whether a frame has a visible (alpha > 0) pixel in row `y`.
pub open spec fn row_visible(frame: Seq<u8>, w: int, y: int) -> bool {
    exists|x: int| 0 <= x < w && #[trigger] frame[(y * w + x) * 4 + 3] > 0
}

/// Whether row `y` is visible in any of the given sprites.
pub open spec fn row_visible_in(frames: Seq<Seq<u8>>, w: int, sprites: Seq<usize>, y: int) -> bool {
    exists|k: int|
        0 <= k < sprites.len() && (#[trigger] sprites[k]) < frames.len() && row_visible(
            frames[sprites[k] as int],
            w,
            y,
        )
}

/// Whether any of the given sprites has a visible pixel.
pub open spec fn sprites_visible(frames: Seq<Seq<u8>>, w: int, h: int, sprites: Seq<usize>) -> bool {
    exists|y: int| 0 <= y < h && #[trigger] row_visible_in(frames, w, sprites, y)
}

/// `(top, bottom)` is the vertical extent of a frame's visible rows, or
/// `(h, 0)` where none is visible.
pub open spec fn is_vspan(frame: Seq<u8>, w: int, h: int, top: int, bottom: int) -> bool {
    &&& forall|y: int| 0 <= y < h && #[trigger] row_visible(frame, w, y) ==> top <= y < bottom
    &&& {
        ||| top == h && bottom == 0
        ||| 0 <= top < bottom <= h && row_visible(frame, w, top) && row_visible(frame, w, bottom - 1)
    }
}

/// Why an image is refused as a sheet.
#[derive(Debug, Clone, Copy, PartialEq, Eq, Structural)]
pub enum SheetError {
    NotTiling { frame_w: u32, frame_h: u32, sheet_w: u32, sheet_h: u32 },
    SizeMismatch,
}

/// The error in words.
pub open spec fn message_of(e: SheetError) -> Seq<char> {
    match e {
        SheetError::NotTiling { frame_w, frame_h, sheet_w, sheet_h } => "frame grid "@ + crate::strings::decimal_of(
            frame_w as nat,
        ) + "x"@ + crate::strings::decimal_of(frame_h as nat) + " does not tile sheet "@ + crate::strings::decimal_of(
            sheet_w as nat,
        ) + "x"@ + crate::strings::decimal_of(sheet_h as nat),
        SheetError::SizeMismatch => "rgba buffer size does not match sheet dimensions"@,
    }
}

impl SheetError {
    /// The error in words.
    pub fn message(&self) -> (text: String)
        ensures
            text@ == message_of(*self),
    {
        match self {
            SheetError::NotTiling { frame_w, frame_h, sheet_w, sheet_h } => {
                let mut s: String = "frame grid ".to_owned();
                s.append(decimal(*frame_w as u64).as_str());
                s.append("x");
                s.append(decimal(*frame_h as u64).as_str());
                s.append(" does not tile sheet ");
                s.append(decimal(*sheet_w as u64).as_str());
                s.append("x");
                s.append(decimal(*sheet_h as u64).as_str());
                s
            },
            SheetError::SizeMismatch => "rgba buffer size does not match sheet dimensions".to_owned(),
        }
    }
}

pub struct Sheet {
    frame_width: u32,
    frame_height: u32,
    /// Unscaled frames, row-major grid order (sprite_index order).
    base: Vec<Vec<u8>>,
    /// Per-frame visible vertical extent (top, bottom), unscaled pixels.
    vspans: Vec<(u32, u32)>,
    /// Nearest-neighbor integer upscales, keyed by factor.
    scaled: HashMap<u32, Vec<Vec<u8>>>,
}

/// The bytes of each frame.
pub open spec fn frame_bytes(frames: Seq<Vec<u8>>) -> Seq<Seq<u8>> {
    frames.map_values(|f: Vec<u8>| f@)
}

fn slice_frame(rgba: &[u8], sheet_w: u32, frame_w: u32, frame_h: u32, row: u32, col: u32) -> (r: (
    Vec<u8>,
    (u32, u32),
))
    requires
        0 < frame_w,
        0 < frame_h,
        (col + 1) * frame_w <= sheet_w,
        (row + 1) * frame_h * sheet_w * 4 <= rgba@.len() <= u32::MAX,
    ensures
        r.0@ == cell(rgba@, sheet_w as int, frame_w as int, frame_h as int, row as int, col as int),
        is_vspan(r.0@, frame_w as int, frame_h as int, r.1.0 as int, r.1.1 as int),
{
    let ghost whole = cell(rgba@, sheet_w as int, frame_w as int, frame_h as int, row as int, col as int);
    let mut frame: Vec<u8> = Vec::new();
    let mut top: u32 = frame_h;
    let mut bottom: u32 = 0;
    let mut y: u32 = 0;
    assert(frame@ =~= whole.take(0));
    while y < frame_h
        invariant
            y <= frame_h,
            0 < frame_w,
            (col + 1) * frame_w <= sheet_w,
            (row + 1) * frame_h * sheet_w * 4 <= rgba@.len() <= u32::MAX,
            whole == cell(rgba@, sheet_w as int, frame_w as int, frame_h as int, row as int, col as int),
            frame@ == whole.take(y * frame_w * 4),
            y * frame_w * 4 <= whole.len(),
            forall|k: int| 0 <= k < y && #[trigger] row_visible(whole, frame_w as int, k) ==> top <= k < bottom,
            top == frame_h && bottom == 0 || (0 <= top < bottom <= y && row_visible(whole, frame_w as int, top as int)
                && row_visible(whole, frame_w as int, bottom - 1)),
        decreases frame_h - y,
    {
        proof {
            lemma_row_room(sheet_w as int, frame_w as int, frame_h as int, row as int, col as int, y as int);
        }
        let sy: u32 = row * frame_h + y;
        let start: usize = ((sy * sheet_w + col * frame_w) * 4) as usize;
        let mut x: u32 = 0;
        let ghost top0 = top;
        let ghost bottom0 = bottom;
        while x < frame_w
            invariant
                x <= frame_w,
                y < frame_h,
                start + frame_w * 4 <= rgba@.len() <= u32::MAX,
                start == ((row * frame_h + y) * sheet_w + col * frame_w) * 4,
                whole == cell(rgba@, sheet_w as int, frame_w as int, frame_h as int, row as int, col as int),
                frame@ == whole.take((y * frame_w + x) * 4),
                0 <= y * frame_w,
                (y * frame_w + frame_w) * 4 <= whole.len(),
                forall|k: int| 0 <= k < y && #[trigger] row_visible(whole, frame_w as int, k) ==> top <= k < bottom,
                forall|k: int|
                    0 <= k < x && #[trigger] whole[(y * frame_w + k) * 4 + 3] > 0 ==> top <= y && bottom == y + 1,
                top == frame_h && bottom == 0 || (0 <= top < bottom <= y + 1 && row_visible(
                    whole,
                    frame_w as int,
                    top as int,
                ) && row_visible(whole, frame_w as int, bottom - 1)),
            decreases frame_w - x,
        {
            let at: usize = start + (x * 4) as usize;
            let r: u8 = rgba[at];
            let g: u8 = rgba[at + 1];
            let b: u8 = rgba[at + 2];
            let a: u8 = rgba[at + 3];
            let ghost px = y * frame_w + x;
            proof {
                crate::canvas::lemma_pixel_of_byte(frame_w as int, y as int, x as int, 0);
                crate::canvas::lemma_pixel_of_byte(frame_w as int, y as int, x as int, 1);
                crate::canvas::lemma_pixel_of_byte(frame_w as int, y as int, x as int, 2);
                crate::canvas::lemma_pixel_of_byte(frame_w as int, y as int, x as int, 3);
                assert(at == ((row * frame_h + y) * sheet_w + col * frame_w + x) * 4);
                assert(whole[px * 4 + 0] == premultiplied(b, a));
                assert(whole[px * 4 + 1] == premultiplied(g, a));
                assert(whole[px * 4 + 2] == premultiplied(r, a));
                assert(whole[px * 4 + 3] == a);
            }
            frame.push(premul(b, a));
            frame.push(premul(g, a));
            frame.push(premul(r, a));
            frame.push(a);
            assert(frame@ =~= whole.take((px + 1) * 4));
            if a > 0 {
                assert(row_visible(whole, frame_w as int, y as int));
                if y < top {
                    top = y;
                }
                if y + 1 > bottom {
                    bottom = y + 1;
                }
            }
            x += 1;
        }
        assert((y + 1) * frame_w == y * frame_w + frame_w) by (nonlinear_arith);
        assert forall|k: int| 0 <= k < y + 1 && #[trigger] row_visible(whole, frame_w as int, k) implies top <= k
            < bottom by {
            if k == y {
                let w = choose|w: int| 0 <= w < frame_w && #[trigger] whole[(y * frame_w + w) * 4 + 3] > 0;
                assert(whole[(y * frame_w + w) * 4 + 3] > 0);
            }
        }
        y += 1;
        proof {
            if y < frame_h {
                assert(y * frame_w <= frame_h * frame_w) by (nonlinear_arith)
                    requires
                        y <= frame_h,
                ;
            }
            assert(frame_w * frame_h == frame_h * frame_w) by (nonlinear_arith);
        }
    }
    assert(frame_w * frame_h == frame_h * frame_w) by (nonlinear_arith);
    assert(frame@ =~= whole);
    (frame, (top, bottom))
}

/// Where a frame's row lies in the sheet.
proof fn lemma_row_room(sheet_w: int, frame_w: int, frame_h: int, row: int, col: int, y: int)
    requires
        0 < frame_w,
        0 <= y < frame_h,
        0 <= row,
        0 <= col,
        (col + 1) * frame_w <= sheet_w,
    ensures
        0 <= row * frame_h,
        0 <= col * frame_w,
        0 <= (row * frame_h + y) * sheet_w,
        (row * frame_h + y) * sheet_w + col * frame_w + frame_w <= (row + 1) * frame_h * sheet_w,
        row * frame_h + y <= (row * frame_h + y) * sheet_w,
        0 <= y * frame_w,
        (y * frame_w + frame_w) * 4 <= frame_w * frame_h * 4,
{
    assert(0 <= row * frame_h) by (nonlinear_arith)
        requires
            0 <= row,
            0 <= frame_h,
    ;
    assert(0 <= col * frame_w) by (nonlinear_arith)
        requires
            0 <= col,
            0 <= frame_w,
    ;
    assert((col + 1) * frame_w == col * frame_w + frame_w) by (nonlinear_arith);
    assert((row + 1) * frame_h == row * frame_h + frame_h) by (nonlinear_arith);
    let sy = row * frame_h + y;
    assert((sy + 1) * sheet_w <= ((row + 1) * frame_h) * sheet_w) by (nonlinear_arith)
        requires
            sy + 1 <= (row + 1) * frame_h,
            0 <= sheet_w,
    ;
    assert((sy + 1) * sheet_w == sy * sheet_w + sheet_w) by (nonlinear_arith);
    assert(0 <= sy * sheet_w) by (nonlinear_arith)
        requires
            0 <= sy,
            0 <= sheet_w,
    ;
    assert(sy <= sy * sheet_w) by (nonlinear_arith)
        requires
            0 <= sy,
            1 <= sheet_w,
    ;
    assert(0 <= y * frame_w) by (nonlinear_arith)
        requires
            0 <= y,
            0 <= frame_w,
    ;
    assert((y + 1) * frame_w <= frame_h * frame_w) by (nonlinear_arith)
        requires
            y + 1 <= frame_h,
            0 <= frame_w,
    ;
    assert((y + 1) * frame_w == y * frame_w + frame_w) by (nonlinear_arith);
    assert(frame_h * frame_w == frame_w * frame_h) by (nonlinear_arith);
}

/// What enlarging one frame needs of the machine's integers.
pub open spec fn scale_room(w: int, h: int, factor: int) -> bool {
    &&& w * factor <= u32::MAX
    &&& h * factor <= u32::MAX
    &&& (w * factor) * (h * factor) * 4 <= usize::MAX
}

pub fn scale_frame(src: &[u8], w: u32, h: u32, factor: u32) -> (out: Vec<u8>)
    requires
        w * h * 4 <= src@.len(),
        scale_room(w as int, h as int, factor as int),
    ensures
        out@ == enlarged(src@, w as int, h as int, factor as int),
{
    let room: usize = src.len();
    let out_w: u32 = w * factor;
    let out_h: u32 = h * factor;
    let ghost whole = enlarged(src@, w as int, h as int, factor as int);
    let mut out: Vec<u8> = Vec::new();
    let mut y: u32 = 0;
    assert(0 <= out_w * out_h) by (nonlinear_arith)
        requires
            0 <= out_w,
            0 <= out_h,
    ;
    assert(out@ =~= whole.take(0));
    while y < out_h
        invariant
            y <= out_h,
            out_w == w * factor,
            out_h == h * factor,
            room == src@.len(),
            w * h * 4 <= src@.len(),
            whole == enlarged(src@, w as int, h as int, factor as int),
            whole.len() == out_w * out_h * 4,
            out@ == whole.take(y * out_w * 4),
        decreases out_h - y,
    {
        proof {
            assert((y + 1) * out_w <= out_h * out_w) by (nonlinear_arith)
                requires
                    y + 1 <= out_h,
            ;
            assert((y + 1) * out_w == y * out_w + out_w) by (nonlinear_arith);
            assert(out_h * out_w == out_w * out_h) by (nonlinear_arith);
            assert(0 <= y * out_w) by (nonlinear_arith)
                requires
                    0 <= y,
                    0 <= out_w,
            ;
        }
        let mut x: u32 = 0;
        while x < out_w
            invariant
                x <= out_w,
                y < out_h,
                out_w == w * factor,
                out_h == h * factor,
                room == src@.len(),
                w * h * 4 <= src@.len(),
                whole == enlarged(src@, w as int, h as int, factor as int),
                0 <= y * out_w,
                (y * out_w + out_w) * 4 <= whole.len(),
                out@ == whole.take((y * out_w + x) * 4),
            decreases out_w - x,
        {
            proof {
                assert(factor != 0) by {
                    if factor == 0 {
                        assert(w * factor == 0) by (nonlinear_arith)
                            requires
                                factor == 0,
                        ;
                    }
                }
                lemma_source_pixel(w as int, h as int, factor as int, x as int, y as int);
                crate::canvas::lemma_pixel_of_byte(out_w as int, y as int, x as int, 0);
                crate::canvas::lemma_pixel_of_byte(out_w as int, y as int, x as int, 1);
                crate::canvas::lemma_pixel_of_byte(out_w as int, y as int, x as int, 2);
                crate::canvas::lemma_pixel_of_byte(out_w as int, y as int, x as int, 3);
            }
            let at: usize = ((y / factor) as usize * w as usize + (x / factor) as usize) * 4;
            let ghost px = y * out_w + x;
            assert(whole[px * 4 + 0] == src@[at + 0]);
            assert(whole[px * 4 + 1] == src@[at + 1]);
            assert(whole[px * 4 + 2] == src@[at + 2]);
            assert(whole[px * 4 + 3] == src@[at + 3]);
            out.push(src[at]);
            out.push(src[at + 1]);
            out.push(src[at + 2]);
            out.push(src[at + 3]);
            assert(out@ =~= whole.take((px + 1) * 4));
            x += 1;
        }
        y += 1;
    }
    assert(out_h * out_w == out_w * out_h) by (nonlinear_arith);
    assert(out@ =~= whole);
    out
}

/// The source pixel of an enlarged one lies in the source frame.
proof fn lemma_source_pixel(w: int, h: int, factor: int, x: int, y: int)
    requires
        0 <= w,
        0 <= h,
        0 < factor,
        0 <= x < w * factor,
        0 <= y < h * factor,
    ensures
        0 <= x / factor < w,
        0 <= y / factor < h,
        0 <= (y / factor) * w,
        (y / factor) * w + x / factor < w * h,
{
    vstd::arithmetic::div_mod::lemma_div_pos_is_pos(x, factor);
    vstd::arithmetic::div_mod::lemma_div_pos_is_pos(y, factor);
    assert(w * factor == factor * w) by (nonlinear_arith);
    assert(h * factor == factor * h) by (nonlinear_arith);
    vstd::arithmetic::div_mod::lemma_multiply_divide_lt(x, factor, w);
    vstd::arithmetic::div_mod::lemma_multiply_divide_lt(y, factor, h);
    let q = y / factor;
    assert((q + 1) * w <= h * w) by (nonlinear_arith)
        requires
            q + 1 <= h,
            0 <= w,
    ;
    assert((q + 1) * w == q * w + w) by (nonlinear_arith);
    assert(h * w == w * h) by (nonlinear_arith);
    assert(0 <= q * w) by (nonlinear_arith)
        requires
            0 <= q,
            0 <= w,
    ;
}

impl Sheet {
    /// Width of every frame.
    pub closed spec fn width(&self) -> u32 {
        self.frame_width
    }

    /// Height of every frame.
    pub closed spec fn height(&self) -> u32 {
        self.frame_height
    }

    /// The frames in sprite-index order, unscaled.
    pub closed spec fn frames(&self) -> Seq<Seq<u8>> {
        frame_bytes(self.base@)
    }

    pub closed spec fn wf(&self) -> bool {
        &&& 0 < self.frame_width
        &&& 0 < self.frame_height
        &&& self.vspans@.len() == self.base@.len()
        &&& forall|i: int|
            0 <= i < self.base@.len() ==> {
                &&& (#[trigger] self.base@[i])@.len() == self.frame_width * self.frame_height * 4
                &&& is_vspan(
                    self.base@[i]@,
                    self.frame_width as int,
                    self.frame_height as int,
                    self.vspans@[i].0 as int,
                    self.vspans@[i].1 as int,
                )
            }
        &&& forall|factor: u32| #[trigger]
            self.scaled@.dom().contains(factor) ==> frame_bytes(self.scaled@[factor]@) == self.frames_scaled(
                factor as int,
            )
    }

    /// The frames enlarged by a factor.
    pub open spec fn frames_scaled(&self, factor: int) -> Seq<Seq<u8>> {
        self.frames().map_values(
            |f: Seq<u8>| enlarged(f, self.width() as int, self.height() as int, factor),
        )
    }

    /// The frames as they are shown at a factor; below two that is unscaled.
    pub open spec fn frames_for(&self, factor: int) -> Seq<Seq<u8>> {
        if factor <= 1 {
            self.frames()
        } else {
            self.frames_scaled(factor)
        }
    }

    /// Whether row `y` is visible in any of the given sprites.
    pub open spec fn visible_in(&self, sprites: Seq<usize>, y: int) -> bool {
        row_visible_in(self.frames(), self.width() as int, sprites, y)
    }

    /// `(top, bottom)` is the vertical extent of what is visible in the given
    /// sprites, or the whole frame where nothing is.
    pub open spec fn is_content_span(&self, sprites: Seq<usize>, top: int, bottom: int) -> bool {
        if exists|y: int| 0 <= y < self.height() && #[trigger] self.visible_in(sprites, y) {
            &&& 0 <= top < bottom <= self.height()
            &&& self.visible_in(sprites, top)
            &&& self.visible_in(sprites, bottom - 1)
            &&& forall|y: int| 0 <= y < self.height() && #[trigger] self.visible_in(sprites, y) ==> top <= y < bottom
        } else {
            top == 0 && bottom == self.height()
        }
    }

    /// Slice a straight-alpha RGBA sheet into its frames.
    pub fn from_rgba(rgba: &[u8], sheet_w: u32, sheet_h: u32, frame_w: u32, frame_h: u32) -> (sheet: Result<
        Self,
        SheetError,
    >)
        requires
            tiles(sheet_w, sheet_h, frame_w, frame_h) ==> sheet_w * sheet_h * 4 <= u32::MAX,
        ensures
            match sheet {
                Ok(s) => {
                    &&& tiles(sheet_w, sheet_h, frame_w, frame_h)
                    &&& rgba@.len() == sheet_w * sheet_h * 4
                    &&& s.wf()
                    &&& s.width() == frame_w
                    &&& s.height() == frame_h
                    &&& s.frames().len() == (sheet_w / frame_w) * (sheet_h / frame_h)
                    &&& forall|row: int, col: int|
                        0 <= row < sheet_h / frame_h && 0 <= col < sheet_w / frame_w
                            ==> #[trigger] s.frames()[row * (sheet_w / frame_w) + col] == cell(
                            rgba@,
                            sheet_w as int,
                            frame_w as int,
                            frame_h as int,
                            row,
                            col,
                        )
                },
                Err(e) => if !tiles(sheet_w, sheet_h, frame_w, frame_h) {
                    e == (SheetError::NotTiling { frame_w, frame_h, sheet_w, sheet_h })
                } else {
                    rgba@.len() != sheet_w * sheet_h * 4 && e == SheetError::SizeMismatch
                },
            },
    {
        if frame_w == 0 || frame_h == 0 || sheet_w % frame_w != 0 || sheet_h % frame_h != 0 {
            return Err(SheetError::NotTiling { frame_w, frame_h, sheet_w, sheet_h });
        }
        proof {
            assert(0 <= sheet_w * sheet_h) by (nonlinear_arith)
                requires
                    0 <= sheet_w,
                    0 <= sheet_h,
            ;
        }
        if rgba.len() != (sheet_w * sheet_h * 4) as usize {
            return Err(SheetError::SizeMismatch);
        }
        let cols: u32 = sheet_w / frame_w;
        let rows: u32 = sheet_h / frame_h;
        proof {
            vstd::arithmetic::div_mod::lemma_fundamental_div_mod(sheet_w as int, frame_w as int);
            vstd::arithmetic::div_mod::lemma_fundamental_div_mod(sheet_h as int, frame_h as int);
            assert(cols * frame_w == sheet_w) by (nonlinear_arith)
                requires
                    sheet_w == frame_w * cols,
            ;
            assert(rows * frame_h == sheet_h) by (nonlinear_arith)
                requires
                    sheet_h == frame_h * rows,
            ;
        }
        let mut base: Vec<Vec<u8>> = Vec::new();
        let mut vspans: Vec<(u32, u32)> = Vec::new();
        let mut row: u32 = 0;
        assert(0 * cols == 0);
        while row < rows
            invariant
                row <= rows,
                0 < frame_w,
                0 < frame_h,
                cols * frame_w == sheet_w,
                rows * frame_h == sheet_h,
                rgba@.len() == sheet_w * sheet_h * 4,
                rgba@.len() <= u32::MAX,
                base@.len() == row * cols,
                sliced(base@, vspans@, rgba@, sheet_w as int, frame_w as int, frame_h as int, cols as int),
            decreases rows - row,
        {
            let mut col: u32 = 0;
            while col < cols
                invariant
                    row < rows,
                    col <= cols,
                    0 < frame_w,
                    0 < frame_h,
                    cols * frame_w == sheet_w,
                    rows * frame_h == sheet_h,
                    rgba@.len() == sheet_w * sheet_h * 4,
                    rgba@.len() <= u32::MAX,
                    base@.len() == row * cols + col,
                    sliced(base@, vspans@, rgba@, sheet_w as int, frame_w as int, frame_h as int, cols as int),
                decreases cols - col,
            {
                proof {
                    assert((col + 1) * frame_w <= cols * frame_w) by (nonlinear_arith)
                        requires
                            col + 1 <= cols,
                    ;
                    assert((row + 1) * frame_h <= rows * frame_h) by (nonlinear_arith)
                        requires
                            row + 1 <= rows,
                    ;
                    assert((row + 1) * frame_h * sheet_w <= sheet_h * sheet_w) by (nonlinear_arith)
                        requires
                            (row + 1) * frame_h <= sheet_h,
                            0 <= sheet_w,
                    ;
                    assert(sheet_h * sheet_w == sheet_w * sheet_h) by (nonlinear_arith);
                    vstd::arithmetic::div_mod::lemma_fundamental_div_mod_converse(
                        row * cols + col,
                        cols as int,
                        row as int,
                        col as int,
                    );
                }
                let (frame, span): (Vec<u8>, (u32, u32)) = slice_frame(rgba, sheet_w, frame_w, frame_h, row, col);
                base.push(frame);
                vspans.push(span);
                col += 1;
            }
            assert((row + 1) * cols == row * cols + cols) by (nonlinear_arith);
            row += 1;
        }
        let sheet = Sheet { frame_width: frame_w, frame_height: frame_h, base, vspans, scaled: HashMap::new() };
        proof {
            assert(rows * cols == cols * rows) by (nonlinear_arith);
            assert forall|r: int, c: int| 0 <= r < rows && 0 <= c < cols implies #[trigger] sheet.frames()[r * cols + c]
                == cell(rgba@, sheet_w as int, frame_w as int, frame_h as int, r, c) by {
                vstd::arithmetic::div_mod::lemma_fundamental_div_mod_converse(r * cols + c, cols as int, r, c);
                assert(0 <= r * cols) by (nonlinear_arith)
                    requires
                        0 <= r,
                        0 <= cols,
                ;
                assert((r + 1) * cols <= rows * cols) by (nonlinear_arith)
                    requires
                        r + 1 <= rows,
                        0 <= cols,
                ;
                assert((r + 1) * cols == r * cols + cols) by (nonlinear_arith);
            }
        }
        Ok(sheet)
    }

    /// Vertical extent of visible (alpha > 0) content across the given
    /// frames, in unscaled frame pixels: the anchor for hugging UI like the
    /// speech bubble, since sprites usually sit low in a padded frame.
    /// Falls back to the full frame when everything is transparent.
    pub fn content_vspan(&self, frames: &[usize]) -> (span: (u32, u32))
        requires
            self.wf(),
        ensures
            self.is_content_span(frames@, span.0 as int, span.1 as int),
    {
        let mut top: u32 = self.frame_height;
        let mut bottom: u32 = 0;
        let mut i: usize = 0;
        while i < frames.len()
            invariant
                i <= frames@.len(),
                self.wf(),
                forall|k: int, y: int| #![trigger row_visible(self.frames()[frames@[k] as int], self.frame_width as int, y)]
                    0 <= k < i && frames@[k] < self.frames().len() && 0 <= y < self.frame_height && row_visible(
                        self.frames()[frames@[k] as int],
                        self.frame_width as int,
                        y,
                    ) ==> top <= y < bottom,
                top == self.frame_height && bottom == 0 || (0 <= top < bottom <= self.frame_height && self.visible_in(
                    frames@,
                    top as int,
                ) && self.visible_in(frames@, bottom - 1)),
            decreases frames@.len() - i,
        {
            let index: usize = frames[i];
            if index < self.vspans.len() {
                let (t, b): (u32, u32) = self.vspans[index];
                assert(self.frames()[index as int] == self.base@[index as int]@);
                assert(frames@[i as int] == index);
                if t < top {
                    top = t;
                }
                if b > bottom {
                    bottom = b;
                }
            }
            i += 1;
        }
        proof {
            assert forall|y: int| 0 <= y < self.frame_height && #[trigger] self.visible_in(frames@, y) implies top <= y
                < bottom by {
                let k = choose|k: int|
                    0 <= k < frames@.len() && (#[trigger] frames@[k]) < self.frames().len() && row_visible(
                        self.frames()[frames@[k] as int],
                        self.frame_width as int,
                        y,
                    );
                assert(row_visible(self.frames()[frames@[k] as int], self.frame_width as int, y));
            }
        }
        if top >= bottom {
            (0, self.frame_height)
        } else {
            (top, bottom)
        }
    }

    /// Whether any of the given frames has a visible pixel.
    pub fn any_visible(&self, frames: &[usize]) -> (any: bool)
        requires
            self.wf(),
        ensures
            any == sprites_visible(self.frames(), self.width() as int, self.height() as int, frames@),
    {
        let mut i: usize = 0;
        while i < frames.len()
            invariant
                i <= frames@.len(),
                self.wf(),
                forall|k: int, y: int| #![trigger row_visible(self.frames()[frames@[k] as int], self.frame_width as int, y)]
                    0 <= k < i && frames@[k] < self.frames().len() && 0 <= y < self.frame_height ==> !row_visible(
                        self.frames()[frames@[k] as int],
                        self.frame_width as int,
                        y,
                    ),
            decreases frames@.len() - i,
        {
            let index: usize = frames[i];
            if index < self.vspans.len() {
                let (t, b): (u32, u32) = self.vspans[index];
                assert(self.frames()[index as int] == self.base@[index as int]@);
                if t < b {
                    assert(frames@[i as int] == index);
                    assert(row_visible_in(self.frames(), self.width() as int, frames@, t as int));
                    return true;
                }
            }
            i += 1;
        }
        proof {
            assert forall|y: int| 0 <= y < self.frame_height implies !#[trigger] self.visible_in(frames@, y) by {
                if self.visible_in(frames@, y) {
                    let k = choose|k: int|
                        0 <= k < frames@.len() && (#[trigger] frames@[k]) < self.frames().len() && row_visible(
                            self.frames()[frames@[k] as int],
                            self.frame_width as int,
                            y,
                        );
                    assert(row_visible(self.frames()[frames@[k] as int], self.frame_width as int, y));
                }
            }
        }
        false
    }

    pub fn frame_width(&self) -> (w: u32)
        ensures
            w == self.width(),
    {
        self.frame_width
    }

    pub fn frame_height(&self) -> (h: u32)
        ensures
            h == self.height(),
    {
        self.frame_height
    }

    pub fn frame_count(&self) -> (count: usize)
        ensures
            count == self.frames().len(),
    {
        self.base.len()
    }

    /// Frames scaled by an integer factor (nearest-neighbor), cached.
    pub fn frames_at(&mut self, factor: u32) -> (frames: &[Vec<u8>])
        requires
            old(self).wf(),
            factor >= 2 && old(self).frames().len() > 0 ==> scale_room(
                old(self).width() as int,
                old(self).height() as int,
                factor as int,
            ),
        ensures
            final(self).wf(),
            final(self).width() == old(self).width(),
            final(self).height() == old(self).height(),
            final(self).frames() == old(self).frames(),
            frame_bytes(frames@) == old(self).frames_for(factor as int),
            forall|i: int|
                0 <= i < frames@.len() ==> (#[trigger] frames@[i])@.len() == (old(self).width()
                    * crate::ints::max_of(factor as int, 1)) * (old(self).height() * crate::ints::max_of(
                    factor as int,
                    1,
                )) * 4,
    {
        if factor <= 1 {
            assert(self.width() * 1 == self.width() && self.height() * 1 == self.height());
            return self.base.as_slice();
        }
        if !self.scaled.contains_key(&factor) {
            let mut frames: Vec<Vec<u8>> = Vec::new();
            let mut i: usize = 0;
            while i < self.base.len()
                invariant
                    i <= self.base@.len(),
                    *self == *old(self),
                    self.wf(),
                    factor >= 2,
                    old(self).frames().len() > 0 ==> scale_room(
                        self.frame_width as int,
                        self.frame_height as int,
                        factor as int,
                    ),
                    frame_bytes(frames@) == self.frames_scaled(factor as int).take(i as int),
                decreases self.base@.len() - i,
            {
                assert(self.frames().len() > 0);
                assert(self.frames()[i as int] == self.base@[i as int]@);
                let frame: Vec<u8> = scale_frame(
                    self.base[i].as_slice(),
                    self.frame_width,
                    self.frame_height,
                    factor,
                );
                let ghost before = frames@;
                frames.push(frame);
                assert(frame_bytes(frames@) =~= frame_bytes(before).push(frame@));
                assert(self.frames_scaled(factor as int).take(i + 1) =~= self.frames_scaled(factor as int).take(
                    i as int,
                ).push(frame@));
                i += 1;
            }
            assert(frame_bytes(frames@) =~= self.frames_scaled(factor as int));
            self.scaled.insert(factor, frames);
            assert(self.frames_scaled(factor as int) == old(self).frames_scaled(factor as int));
            assert(self.wf());
        }
        match self.scaled.get(&factor) {
            Some(frames) => {
                assert forall|i: int| 0 <= i < frames@.len() implies (#[trigger] frames@[i])@.len() == (self.width()
                    * factor) * (self.height() * factor) * 4 by {
                    assert(frame_bytes(frames@)[i] == frames@[i]@);
                    assert(self.frames_scaled(factor as int)[i] == enlarged(
                        self.frames()[i],
                        self.width() as int,
                        self.height() as int,
                        factor as int,
                    ));
                    assert(0 <= self.width() * factor && 0 <= self.height() * factor) by (nonlinear_arith)
                        requires
                            0 <= self.width(),
                            0 <= self.height(),
                            0 <= factor,
                    ;
                    assert(0 <= (self.width() * factor) * (self.height() * factor)) by (nonlinear_arith)
                        requires
                            0 <= self.width() * factor,
                            0 <= self.height() * factor,
                    ;
                }
                frames.as_slice()
            },
            None => self.base.as_slice(),
        }
    }
}

/// The frames and extents collected so far, in row-major order.
spec fn sliced(
    base: Seq<Vec<u8>>,
    vspans: Seq<(u32, u32)>,
    rgba: Seq<u8>,
    sheet_w: int,
    frame_w: int,
    frame_h: int,
    cols: int,
) -> bool {
    &&& vspans.len() == base.len()
    &&& forall|i: int|
        0 <= i < base.len() ==> {
            &&& (#[trigger] base[i])@ == cell(rgba, sheet_w, frame_w, frame_h, i / cols, i % cols)
            &&& is_vspan(base[i]@, frame_w, frame_h, vspans[i].0 as int, vspans[i].1 as int)
        }
}

/// Enlarging by one keeps a frame as it is.
pub proof fn enlarged_by_one_is_the_frame(src: Seq<u8>, w: int, h: int)
    requires
        0 <= w,
        0 <= h,
        src.len() == w * h * 4,
    ensures
        enlarged(src, w, h, 1) == src,
{
    let e = enlarged(src, w, h, 1);
    assert(w * 1 == w && h * 1 == h);
    assert forall|i: int| 0 <= i < e.len() implies e[i] == src[i] by {
        let p = i / 4;
        if w == 0 {
            assert(w * h == 0) by (nonlinear_arith)
                requires
                    w == 0,
            ;
        }
        vstd::arithmetic::div_mod::lemma_fundamental_div_mod(p, w);
        assert((p / w) * w == w * (p / w)) by (nonlinear_arith);
        vstd::arithmetic::div_mod::lemma_div_basics(p / w);
        vstd::arithmetic::div_mod::lemma_div_basics(p % w);
    }
    assert(e =~= src);
}

/// Enlarging in two steps is enlarging by the product.
pub proof fn enlarging_composes(src: Seq<u8>, w: int, h: int, a: int, b: int)
    requires
        0 < w,
        0 < h,
        0 < a,
        0 < b,
        src.len() == w * h * 4,
    ensures
        enlarged(enlarged(src, w, h, a), w * a, h * a, b) == enlarged(src, w, h, a * b),
{
    let inner = enlarged(src, w, h, a);
    let l = enlarged(inner, w * a, h * a, b);
    let r = enlarged(src, w, h, a * b);
    assert(w * a * b == w * (a * b)) by (nonlinear_arith);
    assert(h * a * b == h * (a * b)) by (nonlinear_arith);
    assert forall|i: int| 0 <= i < l.len() implies l[i] == r[i] by {
        let wide = w * a * b;
        let p = i / 4;
        let y = p / wide;
        let x = p % wide;
        assert(0 < w * a && 0 < h * a) by (nonlinear_arith)
            requires
                0 < w,
                0 < h,
                0 < a,
        ;
        assert(0 < wide) by (nonlinear_arith)
            requires
                0 < w * a,
                0 < b,
                wide == w * a * b,
        ;
        vstd::arithmetic::div_mod::lemma_fundamental_div_mod(p, wide);
        vstd::arithmetic::div_mod::lemma_div_pos_is_pos(p, wide);
        assert(y < h * a * b) by (nonlinear_arith)
            requires
                p == wide * y + x,
                0 <= x,
                0 < wide,
                p < wide * (h * a * b),
        ;
        lemma_source_pixel(w * a, h * a, b, x, y);
        let x1 = x / b;
        let y1 = y / b;
        crate::canvas::lemma_pixel_of_byte(w * a, y1, x1, i % 4);
        let j = (y1 * (w * a) + x1) * 4 + i % 4;
        assert(j < inner.len());
        assert(inner[j] == src[((y1 / a) * w + x1 / a) * 4 + i % 4]);
        vstd::arithmetic::div_mod::lemma_div_denominator(x, b, a);
        vstd::arithmetic::div_mod::lemma_div_denominator(y, b, a);
        assert(b * a == a * b) by (nonlinear_arith);
    }
    assert(l =~= r);
}

/// A premultiplied channel is the whole number nearest to the channel's share
/// of its alpha: no other comes as near.
pub proof fn premultiplying_rounds_to_nearest(c: u8, a: u8, p: u8, other: int)
    requires
        call_ensures(premul, (c, a), p),
    ensures
        -127 <= 255 * p - c * a <= 127,
        other != p ==> 255 * other - c * a > 127 || c * a - 255 * other > 127,
        p <= a,
{
    let n = c * a + 127;
    assert(0 <= c * a <= 255 * 255) by (nonlinear_arith)
        requires
            0 <= c <= 255,
            0 <= a <= 255,
    ;
    assert(n == 255 * (n / 255) + n % 255);
}

/// Every pixel of a sliced sheet is where the image has it: pixel (x, y) of the
/// frame in grid cell (row, col), counted row by row, is the image's pixel at
/// (col * width + x, row * height + y), as blue, green, red (each its nearest
/// share of the alpha) and alpha.
pub proof fn sliced_frames_show_the_image(
    rgba: &[u8],
    sheet_w: u32,
    sheet_h: u32,
    frame_w: u32,
    frame_h: u32,
    sheet: Sheet,
    row: int,
    col: int,
    x: int,
    y: int,
)
    requires
        call_ensures(Sheet::from_rgba, (rgba, sheet_w, sheet_h, frame_w, frame_h), Ok(sheet)),
        0 <= row,
        0 <= col,
        0 <= x < frame_w,
        0 <= y < frame_h,
        col * frame_w + x < sheet_w,
        row * frame_h + y < sheet_h,
    ensures
        ({
            let across = sheet_w as int / frame_w as int;
            let frame = sheet.frames()[row * across + col];
            let at = (y * frame_w + x) * 4;
            let px = ((row * frame_h + y) * sheet_w + (col * frame_w + x)) * 4;
            let a = rgba@[px + 3];
            &&& across * frame_w == sheet_w
            &&& 0 <= row * across + col < sheet.frames().len()
            &&& frame.len() == frame_w * frame_h * 4
            &&& 0 <= at && at + 4 <= frame.len()
            &&& 0 <= px && px + 4 <= rgba@.len()
            &&& frame[at + 3] == a
            &&& -127 <= 255 * frame[at] - rgba@[px + 2] * a <= 127
            &&& -127 <= 255 * frame[at + 1] - rgba@[px + 1] * a <= 127
            &&& -127 <= 255 * frame[at + 2] - rgba@[px] * a <= 127
        }),
{
    let cols = sheet_w as int / frame_w as int;
    let rows = sheet_h as int / frame_h as int;
    let (w, h) = (frame_w as int, frame_h as int);
    vstd::arithmetic::div_mod::lemma_fundamental_div_mod(sheet_w as int, w);
    vstd::arithmetic::div_mod::lemma_fundamental_div_mod(sheet_h as int, h);
    assert(cols * w == w * cols && rows * h == h * rows) by (nonlinear_arith);
    assert(col < cols) by (nonlinear_arith)
        requires
            col * w + x < cols * w,
            0 <= x,
            0 < w,
    ;
    assert(row < rows) by (nonlinear_arith)
        requires
            row * h + y < rows * h,
            0 <= y,
            0 < h,
    ;
    let frame = sheet.frames()[row * cols + col];
    assert(frame == cell(rgba@, sheet_w as int, w, h, row, col));
    assert((row + 1) * cols <= rows * cols) by (nonlinear_arith)
        requires
            row + 1 <= rows,
            0 <= cols,
    ;
    assert((row + 1) * cols == row * cols + cols) by (nonlinear_arith);
    assert(rows * cols == cols * rows) by (nonlinear_arith);
    assert(0 <= row * cols) by (nonlinear_arith)
        requires
            0 <= row,
            0 <= cols,
    ;
    assert((col + 1) * w <= cols * w) by (nonlinear_arith)
        requires
            col + 1 <= cols,
            0 < w,
    ;
    lemma_row_room(sheet_w as int, w, h, row, col, y);
    let sy = row * h + y;
    let sx = col * w + x;
    assert((sy + 1) * sheet_w <= sheet_h * sheet_w) by (nonlinear_arith)
        requires
            sy + 1 <= sheet_h,
            0 <= sheet_w,
    ;
    assert((sy + 1) * sheet_w == sy * sheet_w + sheet_w) by (nonlinear_arith);
    assert(sheet_h * sheet_w == sheet_w * sheet_h) by (nonlinear_arith);
    crate::canvas::lemma_pixel_of_byte(w, y, x, 0);
    crate::canvas::lemma_pixel_of_byte(w, y, x, 1);
    crate::canvas::lemma_pixel_of_byte(w, y, x, 2);
    crate::canvas::lemma_pixel_of_byte(w, y, x, 3);
    let px = (sy * sheet_w + sx) * 4;
    let at = (y * w + x) * 4;
    let a = rgba@[px + 3];
    assert(frame[at + 0] == premultiplied(rgba@[px + 2], a));
    assert(frame[at + 1] == premultiplied(rgba@[px + 1], a));
    assert(frame[at + 2] == premultiplied(rgba@[px], a));
    lemma_premultiplied(rgba@[px], a);
    lemma_premultiplied(rgba@[px + 1], a);
    lemma_premultiplied(rgba@[px + 2], a);
}

proof fn lemma_premultiplied(c: u8, a: u8)
    ensures
        -127 <= 255 * premultiplied(c, a) - c * a <= 127,
{
    let n = c * a + 127;
    assert(0 <= c * a <= 255 * 255) by (nonlinear_arith)
        requires
            0 <= c <= 255,
            0 <= a <= 255,
    ;
    assert(n == 255 * (n / 255) + n % 255);
}

/// A sheet is sliced exactly if whole frames cover it and the buffer holds its
/// pixels; what is refused tells which of the two fails.
pub proof fn only_whole_grids_are_sliced(
    rgba: &[u8],
    sheet_w: u32,
    sheet_h: u32,
    frame_w: u32,
    frame_h: u32,
    sliced: Result<Sheet, SheetError>,
    cols: int,
    rows: int,
)
    requires
        call_ensures(Sheet::from_rgba, (rgba, sheet_w, sheet_h, frame_w, frame_h), sliced),
        0 < frame_w,
        0 < frame_h,
    ensures
        cols * frame_w == sheet_w && rows * frame_h == sheet_h ==> {
            &&& sliced is Ok <==> rgba@.len() == sheet_w * sheet_h * 4
            &&& sliced matches Ok(s) ==> s.frames().len() == cols * rows && s.width() == frame_w && s.height()
                == frame_h
            &&& sliced matches Err(e) ==> e is SizeMismatch
        },
        cols * frame_w < sheet_w < (cols + 1) * frame_w || rows * frame_h < sheet_h < (rows + 1) * frame_h
            ==> sliced is Err && sliced->Err_0 is NotTiling,
{
    let (w, h) = (frame_w as int, frame_h as int);
    if cols * w == sheet_w && rows * h == sheet_h {
        assert(sheet_w == w * cols && sheet_h == h * rows) by (nonlinear_arith)
            requires
                cols * w == sheet_w,
                rows * h == sheet_h,
        ;
        vstd::arithmetic::div_mod::lemma_fundamental_div_mod_converse(sheet_w as int, w, cols, 0);
        vstd::arithmetic::div_mod::lemma_fundamental_div_mod_converse(sheet_h as int, h, rows, 0);
    }
    if cols * w < sheet_w < (cols + 1) * w {
        lemma_no_multiple(sheet_w as int, w, cols);
    }
    if rows * h < sheet_h < (rows + 1) * h {
        lemma_no_multiple(sheet_h as int, h, rows);
    }
}

proof fn lemma_no_multiple(n: int, d: int, k: int)
    requires
        0 < d,
        k * d < n < (k + 1) * d,
    ensures
        n % d != 0,
{
    assert((k + 1) * d == k * d + d && k * d == d * k) by (nonlinear_arith);
    vstd::arithmetic::div_mod::lemma_fundamental_div_mod_converse(n, d, k, n - k * d);
}

/// Enlarging draws every pixel as a block: the pixel at (x, y) of the frame is
/// found again at every place of the `factor`-sized square that starts at
/// (x * factor, y * factor).
pub proof fn enlarging_draws_every_pixel_as_a_block(
    src: &[u8],
    w: u32,
    h: u32,
    factor: u32,
    out: Vec<u8>,
    x: int,
    y: int,
    dx: int,
    dy: int,
    channel: int,
)
    requires
        call_ensures(scale_frame, (src, w, h, factor), out),
        0 <= x < w,
        0 <= y < h,
        0 <= dx < factor,
        0 <= dy < factor,
        0 <= channel < 4,
    ensures
        ({
            let wide = w * factor;
            let at = ((y * factor + dy) * wide + (x * factor + dx)) * 4 + channel;
            &&& out@.len() == wide * (h * factor) * 4
            &&& 0 <= at < out@.len()
            &&& out@[at] == src@[(y * w + x) * 4 + channel]
        }),
{
    lemma_block(src@, w as int, h as int, factor as int, x, y, dx, dy, channel);
}

proof fn lemma_block(src: Seq<u8>, w: int, h: int, f: int, x: int, y: int, dx: int, dy: int, channel: int)
    requires
        0 <= x < w,
        0 <= y < h,
        0 <= dx < f,
        0 <= dy < f,
        0 <= channel < 4,
    ensures
        ({
            let at = ((y * f + dy) * (w * f) + (x * f + dx)) * 4 + channel;
            &&& enlarged(src, w, h, f).len() == (w * f) * (h * f) * 4
            &&& 0 <= at < enlarged(src, w, h, f).len()
            &&& enlarged(src, w, h, f)[at] == src[(y * w + x) * 4 + channel]
        }),
{
    let wide = w * f;
    let high = h * f;
    let bx = x * f + dx;
    let by = y * f + dy;
    assert(0 <= x * f && (x + 1) * f <= w * f && (x + 1) * f == x * f + f) by (nonlinear_arith)
        requires
            0 <= x,
            x + 1 <= w,
            0 < f,
    ;
    assert(0 <= y * f && (y + 1) * f <= h * f && (y + 1) * f == y * f + f) by (nonlinear_arith)
        requires
            0 <= y,
            y + 1 <= h,
            0 < f,
    ;
    assert(0 <= by * wide && (by + 1) * wide <= high * wide && (by + 1) * wide == by * wide + wide) by (nonlinear_arith)
        requires
            0 <= by,
            by + 1 <= high,
            0 < wide,
    ;
    assert(high * wide == wide * high) by (nonlinear_arith);
    assert(0 <= wide * high) by (nonlinear_arith)
        requires
            0 < wide,
            0 < high,
    ;
    crate::canvas::lemma_pixel_of_byte(wide, by, bx, channel);
    assert(x * f == f * x && y * f == f * y) by (nonlinear_arith);
    vstd::arithmetic::div_mod::lemma_fundamental_div_mod_converse(bx, f, x, dx);
    vstd::arithmetic::div_mod::lemma_fundamental_div_mod_converse(by, f, y, dy);
}

/// The frames that are shown at a factor are the sheet's, one for one, each
/// pixel a block of that size; factors below two leave them as they are.
pub proof fn shown_frames_are_the_sheets(
    sheet: Sheet,
    factor: int,
    i: int,
    x: int,
    y: int,
    dx: int,
    dy: int,
    channel: int,
)
    requires
        0 <= i < sheet.frames().len(),
        0 <= x < sheet.width(),
        0 <= y < sheet.height(),
        0 <= dx < factor,
        0 <= dy < factor,
        0 <= channel < 4,
    ensures
        sheet.frames_for(factor).len() == sheet.frames().len(),
        sheet.frames_for(0) == sheet.frames(),
        sheet.frames_for(1) == sheet.frames(),
        ({
            let wide = sheet.width() * factor;
            sheet.frames_for(factor)[i][((y * factor + dy) * wide + (x * factor + dx)) * 4 + channel]
                == sheet.frames()[i][(y * sheet.width() + x) * 4 + channel]
        }),
{
    let (w, h) = (sheet.width() as int, sheet.height() as int);
    if factor > 1 {
        lemma_block(sheet.frames()[i], w, h, factor, x, y, dx, dy, channel);
    } else {
        assert(dx == 0 && dy == 0);
        assert(x * 1 == x && y * 1 == y && w * 1 == w) by (nonlinear_arith);
        assert((y * factor + dy) * (w * factor) == y * w) by (nonlinear_arith)
            requires
                factor == 1,
                dy == 0,
        ;
    }
}

/// A pixel of one of the given sprites is visible: it has some alpha.
pub open spec fn pixel_visible(frames: Seq<Seq<u8>>, w: int, sprite: usize, x: int, y: int) -> bool {
    sprite < frames.len() && frames[sprite as int][(y * w + x) * 4 + 3] > 0
}

/// The content's extent hugs what is visible: every visible pixel of the given
/// sprites lies within it, and its first and last row have one each; where
/// nothing is visible it is the whole frame.
pub proof fn content_extent_hugs_the_ink(
    sheet: &Sheet,
    sprites: &[usize],
    span: (u32, u32),
    any: bool,
    k: int,
    x: int,
    y: int,
)
    requires
        call_ensures(Sheet::content_vspan, (sheet, sprites), span),
        call_ensures(Sheet::any_visible, (sheet, sprites), any),
        sheet.wf(),
        0 <= k < sprites@.len(),
        0 <= x < sheet.width(),
        0 <= y < sheet.height(),
    ensures
        pixel_visible(sheet.frames(), sheet.width() as int, sprites@[k], x, y) ==> any && span.0 <= y < span.1,
        any ==> span.0 < span.1 <= sheet.height(),
        any ==> exists|j: int, at: int|
            0 <= j < sprites@.len() && 0 <= at < sheet.width() && #[trigger] pixel_visible(
                sheet.frames(),
                sheet.width() as int,
                sprites@[j],
                at,
                span.0 as int,
            ),
        any ==> exists|j: int, at: int|
            0 <= j < sprites@.len() && 0 <= at < sheet.width() && #[trigger] pixel_visible(
                sheet.frames(),
                sheet.width() as int,
                sprites@[j],
                at,
                span.1 - 1,
            ),
        !any ==> span == (0u32, sheet.height()),
{
    let frames = sheet.frames();
    let w = sheet.width() as int;
    if pixel_visible(frames, w, sprites@[k], x, y) {
        assert(row_visible(frames[sprites@[k] as int], w, y));
        assert(row_visible_in(frames, w, sprites@, y));
        assert(sheet.visible_in(sprites@, y));
    }
    if any {
        let r = choose|r: int| 0 <= r < sheet.height() && #[trigger] row_visible_in(frames, w, sprites@, r);
        assert(sheet.visible_in(sprites@, r));
        lemma_row_has_pixel(frames, w, sprites@, span.0 as int);
        lemma_row_has_pixel(frames, w, sprites@, span.1 - 1);
    } else {
        assert forall|r: int| 0 <= r < sheet.height() implies !#[trigger] sheet.visible_in(sprites@, r) by {
            assert(!row_visible_in(frames, w, sprites@, r));
        }
    }
}

pub(crate) proof fn lemma_row_has_pixel(frames: Seq<Seq<u8>>, w: int, sprites: Seq<usize>, y: int)
    requires
        row_visible_in(frames, w, sprites, y),
    ensures
        exists|j: int, at: int|
            0 <= j < sprites.len() && 0 <= at < w && #[trigger] pixel_visible(frames, w, sprites[j], at, y),
{
    let j = choose|j: int|
        0 <= j < sprites.len() && (#[trigger] sprites[j]) < frames.len() && row_visible(
            frames[sprites[j] as int],
            w,
            y,
        );
    let frame = frames[sprites[j] as int];
    let at = choose|at: int| 0 <= at < w && #[trigger] frame[(y * w + at) * 4 + 3] > 0;
    assert(pixel_visible(frames, w, sprites[j], at, y));
}

/// A sheet that does not tile is refused with both sizes, the frame's first,
/// each across and then down.
pub proof fn refused_sheets_are_told_with_their_sizes(
    frame_w: u32,
    frame_h: u32,
    sheet_w: u32,
    sheet_h: u32,
    text: String,
)
    requires
        call_ensures(
            SheetError::message,
            (&(SheetError::NotTiling { frame_w, frame_h, sheet_w, sheet_h }),),
            text,
        ),
    ensures
        text@ == "frame grid "@ + crate::strings::decimal_of(frame_w as nat) + "x"@ + crate::strings::decimal_of(
            frame_h as nat,
        ) + " does not tile sheet "@ + crate::strings::decimal_of(sheet_w as nat) + "x"@ + crate::strings::decimal_of(
            sheet_h as nat,
        ),
{
}

} // verus!
