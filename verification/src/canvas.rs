//! Software canvas over a premultiplied ARGB8888-LE (B,G,R,A) buffer: the
//! sprite blit, and bounds-checked access to single pixels for everything
//! that blends.

use vstd::prelude::*;

use crate::ints::cast_i32;

verus! {

pub struct Canvas<'a> {
    pub buf: &'a mut [u8],
    pub width: u32,
    pub height: u32,
}

/// One premultiplied pixel, in buffer byte order.
#[derive(Debug, Clone, Copy, PartialEq, Eq, Structural)]
pub struct Pixel {
    pub b: u8,
    pub g: u8,
    pub r: u8,
    pub a: u8,
}

/// Whether a `src_w`x`src_h` image fits on a `width`x`height` canvas with its
/// top-left corner at (x, y).
pub open spec fn fits(width: int, height: int, src_w: int, src_h: int, x: int, y: int) -> bool {
    x + src_w <= width && y + src_h <= height
}

/// The canvas bytes after a `src_w`x`src_h` image is copied to (x, y), each row
/// mirrored when `flip`. Bytes outside the image's rectangle are kept.
pub open spec fn blitted(
    buf: Seq<u8>,
    width: int,
    src: Seq<u8>,
    src_w: int,
    src_h: int,
    x: int,
    y: int,
    flip: bool,
) -> Seq<u8> {
    Seq::new(
        buf.len(),
        |i: int|
            {
                let col = (i / 4) % width;
                let row = (i / 4) / width;
                if x <= col < x + src_w && y <= row < y + src_h {
                    let sx = if flip { src_w - 1 - (col - x) } else { col - x };
                    src[((row - y) * src_w + sx) * 4 + i % 4]
                } else {
                    buf[i]
                }
            },
    )
}

/// What copying a non-empty image needs of the two buffers: every row of the
/// image, and every canvas row that it covers, is there.
pub open spec fn blit_room(
    buf_len: int,
    width: int,
    src_len: int,
    src_w: int,
    src_h: int,
    x: int,
    y: int,
) -> bool {
    src_w > 0 && src_h > 0 ==> {
        &&& ((y + src_h - 1) * width + x + src_w) * 4 <= buf_len
        &&& src_h * src_w * 4 <= src_len
    }
}

/// Byte offset of the pixel at (x, y), when the canvas has it.
pub open spec fn pixel_offset(width: u32, height: u32, x: int, y: int) -> Option<int> {
    if x < 0 || y < 0 || x >= crate::ints::wrap_i32(width) || y >= crate::ints::wrap_i32(height) {
        None
    } else {
        Some((y * width + x) * 4)
    }
}

/// Row, column and channel of a byte, from its offset.
pub(crate) proof fn lemma_pixel_of_byte(width: int, r: int, c: int, b: int)
    requires
        0 <= c < width,
        0 <= r,
        0 <= b < 4,
    ensures
        ({
            let i = (r * width + c) * 4 + b;
            &&& i / 4 == r * width + c
            &&& i % 4 == b
            &&& (i / 4) / width == r
            &&& (i / 4) % width == c
        }),
{
    let i = (r * width + c) * 4 + b;
    assert(0 <= r * width) by (nonlinear_arith)
        requires
            0 <= r,
            0 < width,
    ;
    assert(i / 4 == r * width + c && i % 4 == b);
    vstd::arithmetic::div_mod::lemma_fundamental_div_mod_converse(r * width + c, width, r, c);
}

/// Between the end of one image row and the start of the next, no canvas byte
/// lies in the image's rectangle.
proof fn lemma_gap_outside(width: int, src_w: int, x: int, row: int, i: int)
    requires
        0 < width,
        0 <= x,
        0 < src_w,
        x + src_w <= width,
        0 <= i,
        (row * width + x + src_w) * 4 <= i < ((row + 1) * width + x) * 4,
    ensures
        !(x <= (i / 4) % width < x + src_w),
{
    let p = i / 4;
    let r = p / width;
    let c = p % width;
    vstd::arithmetic::div_mod::lemma_fundamental_div_mod(p, width);
    assert(p == r * width + c) by {
        vstd::arithmetic::mul::lemma_mul_is_commutative(r, width);
    }
    if x <= c < x + src_w {
        assert(row * width + x + src_w <= p < (row + 1) * width + x);
        assert(r > row) by (nonlinear_arith)
            requires
                row * width + x + src_w <= r * width + c,
                c < x + src_w,
                0 < width,
        ;
        assert(r < row + 1) by (nonlinear_arith)
            requires
                r * width + c < (row + 1) * width + x,
                x <= c,
                0 < width,
        ;
    }
}

/// Bytes before the first image row, and bytes from the last image row's end
/// on, lie outside the rectangle.
proof fn lemma_ends_outside(width: int, src_w: int, src_h: int, x: int, y: int, i: int)
    requires
        0 < width,
        0 <= x,
        0 <= y,
        0 < src_w,
        0 < src_h,
        x + src_w <= width,
        0 <= i,
        i < (y * width + x) * 4 || i >= ((y + src_h - 1) * width + x + src_w) * 4,
    ensures
        !(x <= (i / 4) % width < x + src_w && y <= (i / 4) / width < y + src_h),
{
    let p = i / 4;
    let r = p / width;
    let c = p % width;
    vstd::arithmetic::div_mod::lemma_fundamental_div_mod(p, width);
    assert(p == r * width + c) by {
        vstd::arithmetic::mul::lemma_mul_is_commutative(r, width);
    }
    if x <= c < x + src_w && y <= r < y + src_h {
        assert(y * width <= r * width) by (nonlinear_arith)
            requires
                y <= r,
                0 < width,
        ;
        assert(r * width <= (y + src_h - 1) * width) by (nonlinear_arith)
            requires
                r <= y + src_h - 1,
                0 < width,
        ;
        assert(false);
    }
}

impl<'a> Canvas<'a> {
    /// The bytes that the canvas draws on.
    pub open spec fn bytes(&self) -> Seq<u8> {
        self.buf@
    }

    pub fn new(buf: &'a mut [u8], width: u32, height: u32) -> (canvas: Canvas<'a>)
        ensures
            canvas.buf@ == old(buf)@,
            final(canvas.buf)@ == final(buf)@,
            canvas.width == width,
            canvas.height == height,
    {
        Canvas { buf, width, height }
    }

    /// Make every byte zero (transparent).
    pub fn clear(&mut self)
        ensures
            final(self).buf@ == Seq::new(old(self).buf@.len(), |i: int| 0u8),
            final(self).width == old(self).width,
            final(self).height == old(self).height,
            final(final(self).buf)@ == final(old(self).buf)@,
    {
        let mut i: usize = 0;
        while i < self.buf.len()
            invariant
                i <= self.buf@.len(),
                self.buf@.len() == old(self).buf@.len(),
                self.width == old(self).width,
                self.height == old(self).height,
                final(self.buf)@ == final(old(self).buf)@,
                forall|k: int| 0 <= k < i ==> self.buf@[k] == 0u8,
            decreases self.buf@.len() - i,
        {
            self.buf[i] = 0;
            i += 1;
        }
        assert(self.buf@ =~= Seq::new(old(self).buf@.len(), |i: int| 0u8));
    }

    /// Copy a premultiplied frame onto a transparent area (no blending). A
    /// frame that does not fit is not drawn at all.
    pub fn blit(&mut self, src: &[u8], src_w: u32, src_h: u32, x: u32, y: u32)
        requires
            x + src_w <= u32::MAX,
            x + src_w <= old(self).width ==> y + src_h <= u32::MAX,
            fits(old(self).width as int, old(self).height as int, src_w as int, src_h as int, x as int, y as int)
                ==> blit_room(old(self).buf@.len() as int, old(self).width as int, src@.len() as int, src_w as int, src_h as int, x as int, y as int),
        ensures
            final(self).buf@ == if fits(old(self).width as int, old(self).height as int, src_w as int, src_h as int, x as int, y as int) {
                blitted(old(self).buf@, old(self).width as int, src@, src_w as int, src_h as int, x as int, y as int, false)
            } else {
                old(self).buf@
            },
            final(self).width == old(self).width,
            final(self).height == old(self).height,
            final(final(self).buf)@ == final(old(self).buf)@,
    {
        if x + src_w > self.width || y + src_h > self.height {
            return;
        }
        self.copy_rows(src, src_w, src_h, x, y, false);
    }

    /// Like `blit`, but mirror the source horizontally (reverse each row's
    /// pixels). Used for gaze frames whose left-facing directions reuse the
    /// right-facing art flipped.
    pub fn blit_flipped_h(&mut self, src: &[u8], src_w: u32, src_h: u32, x: u32, y: u32)
        requires
            x + src_w <= u32::MAX,
            x + src_w <= old(self).width ==> y + src_h <= u32::MAX,
            fits(old(self).width as int, old(self).height as int, src_w as int, src_h as int, x as int, y as int)
                ==> blit_room(old(self).buf@.len() as int, old(self).width as int, src@.len() as int, src_w as int, src_h as int, x as int, y as int),
        ensures
            final(self).buf@ == if fits(old(self).width as int, old(self).height as int, src_w as int, src_h as int, x as int, y as int) {
                blitted(old(self).buf@, old(self).width as int, src@, src_w as int, src_h as int, x as int, y as int, true)
            } else {
                old(self).buf@
            },
            final(self).width == old(self).width,
            final(self).height == old(self).height,
            final(final(self).buf)@ == final(old(self).buf)@,
    {
        if x + src_w > self.width || y + src_h > self.height {
            return;
        }
        self.copy_rows(src, src_w, src_h, x, y, true);
    }

    fn copy_rows(&mut self, src: &[u8], src_w: u32, src_h: u32, x: u32, y: u32, flip: bool)
        requires
            fits(old(self).width as int, old(self).height as int, src_w as int, src_h as int, x as int, y as int),
            blit_room(old(self).buf@.len() as int, old(self).width as int, src@.len() as int, src_w as int, src_h as int, x as int, y as int),
        ensures
            final(self).buf@ == blitted(old(self).buf@, old(self).width as int, src@, src_w as int, src_h as int, x as int, y as int, flip),
            final(self).width == old(self).width,
            final(self).height == old(self).height,
            final(final(self).buf)@ == final(old(self).buf)@,
    {
        let ghost before = self.buf@;
        let ghost wide = self.width as int;
        let ghost after = blitted(before, wide, src@, src_w as int, src_h as int, x as int, y as int, flip);
        if src_w == 0 || src_h == 0 {
            assert(after =~= before);
            return;
        }
        let width: usize = self.width as usize;
        let sw: usize = src_w as usize;
        let sh: usize = src_h as usize;
        let room: usize = self.buf.len();
        let src_room: usize = src.len();
        let mut sy: usize = 0;
        proof {
            assert(wide >= 1);
            assert forall|i: int| 0 <= i < before.len() && i < (y * wide + x) * 4 implies before[i] == after[i] by {
                lemma_ends_outside(wide, src_w as int, src_h as int, x as int, y as int, i);
            }
        }
        while sy < sh
            invariant
                0 < sw == src_w,
                0 < sh == src_h,
                sy <= sh,
                width == wide == self.width,
                x + src_w <= wide,
                y + src_h <= u32::MAX,
                self.width == old(self).width,
                self.height == old(self).height,
                final(self.buf)@ == final(old(self).buf)@,
                before.len() == self.buf@.len() == room,
                src@.len() == src_room,
                after == blitted(before, wide, src@, src_w as int, src_h as int, x as int, y as int, flip),
                ((y + src_h - 1) * wide + x + src_w) * 4 <= before.len(),
                src_h * src_w * 4 <= src@.len(),
                forall|i: int| 0 <= i < before.len() && i < ((y + sy) * wide + x) * 4 ==> self.buf@[i] == after[i],
                forall|i: int| 0 <= i < before.len() && i >= ((y + sy) * wide + x) * 4 && sy < sh ==> self.buf@[i] == before[i],
                sy == sh ==> self.buf@ == after,
            decreases sh - sy,
        {
            proof {
                assert((y + sy) * wide <= (y + src_h - 1) * wide) by (nonlinear_arith)
                    requires
                        sy <= src_h - 1,
                        0 < wide,
                ;
                assert(0 <= (y + sy) * wide) by (nonlinear_arith)
                    requires
                        0 <= y,
                        0 <= sy,
                        0 < wide,
                ;
                assert((sy + 1) * src_w <= src_h * src_w) by (nonlinear_arith)
                    requires
                        sy + 1 <= src_h,
                        0 < src_w,
                ;
                assert((sy + 1) * src_w == sy * src_w + src_w) by (nonlinear_arith);
                assert(0 <= sy * src_w) by (nonlinear_arith)
                    requires
                        0 <= sy,
                        0 <= src_w,
                ;
            }
            let d: usize = ((y as usize + sy) * width + x as usize) * 4;
            let s: usize = sy * sw * 4;
            let mut sx: usize = 0;
            while sx < sw
                invariant
                    0 < sw == src_w,
                    0 < sh == src_h,
                    sy < sh,
                    sx <= sw,
                    width == wide == self.width,
                    x + src_w <= wide,
                    self.width == old(self).width,
                    self.height == old(self).height,
                    final(self.buf)@ == final(old(self).buf)@,
                    before.len() == self.buf@.len() == room,
                    src@.len() == src_room,
                    after == blitted(before, wide, src@, src_w as int, src_h as int, x as int, y as int, flip),
                    d == ((y + sy) * wide + x) * 4,
                    s == sy * src_w * 4,
                    d + sw * 4 <= before.len(),
                    s + sw * 4 <= src@.len(),
                    forall|i: int| 0 <= i < d + sx * 4 ==> self.buf@[i] == after[i],
                    forall|i: int| d + sx * 4 <= i < before.len() ==> self.buf@[i] == before[i],
                decreases sw - sx,
            {
                let from: usize = if flip { sw - 1 - sx } else { sx };
                let sp: usize = s + from * 4;
                let dp: usize = d + sx * 4;
                proof {
                    assert forall|b: int| 0 <= b < 4 implies #[trigger] after[dp + b] == src@[sp + b] by {
                        assert(dp + b == ((y + sy) * wide + (x + sx)) * 4 + b);
                        lemma_pixel_of_byte(wide, y + sy, x + sx, b);
                        assert(sp + b == (sy * src_w + from) * 4 + b);
                    }
                    assert(after[dp + 0] == src@[sp + 0]);
                    assert(after[dp + 1] == src@[sp + 1]);
                    assert(after[dp + 2] == src@[sp + 2]);
                    assert(after[dp + 3] == src@[sp + 3]);
                }
                self.buf[dp] = src[sp];
                self.buf[dp + 1] = src[sp + 1];
                self.buf[dp + 2] = src[sp + 2];
                self.buf[dp + 3] = src[sp + 3];
                sx += 1;
            }
            proof {
                assert(((y + sy) + 1) * wide == (y + sy) * wide + wide) by (nonlinear_arith);
                if sy + 1 < sh {
                    assert forall|i: int| 0 <= i < before.len() && i < ((y + sy + 1) * wide + x) * 4 implies self.buf@[i] == after[i] by {
                        if i >= d + sw * 4 {
                            lemma_gap_outside(wide, src_w as int, x as int, y + sy, i);
                        }
                    }
                } else {
                    assert forall|i: int| 0 <= i < before.len() implies self.buf@[i] == after[i] by {
                        if i >= d + sw * 4 {
                            lemma_ends_outside(wide, src_w as int, src_h as int, x as int, y as int, i);
                        }
                    }
                    assert(self.buf@ =~= after);
                }
            }
            sy += 1;
        }
    }

    /// The pixel at (x, y), or `None` off the canvas.
    pub fn pixel(&self, x: i32, y: i32) -> (pixel: Option<Pixel>)
        requires
            pixel_offset(self.width, self.height, x as int, y as int) matches Some(i) ==> i + 4 <= self.bytes().len(),
        ensures
            pixel == match pixel_offset(self.width, self.height, x as int, y as int) {
                None => None::<Pixel>,
                Some(i) => Some(
                    Pixel { b: self.bytes()[i], g: self.bytes()[i + 1], r: self.bytes()[i + 2], a: self.bytes()[i + 3] },
                ),
            },
    {
        match self.offset(x, y) {
            None => None,
            Some(i) => Some(
                Pixel { b: self.buf[i], g: self.buf[i + 1], r: self.buf[i + 2], a: self.buf[i + 3] },
            ),
        }
    }

    /// Replace the pixel at (x, y); off the canvas nothing happens.
    pub fn set_pixel(&mut self, x: i32, y: i32, pixel: Pixel)
        requires
            pixel_offset(old(self).width, old(self).height, x as int, y as int) matches Some(i) ==> i + 4
                <= old(self).buf@.len(),
        ensures
            final(self).buf@ == match pixel_offset(old(self).width, old(self).height, x as int, y as int) {
                None => old(self).buf@,
                Some(i) => old(self).buf@.update(i, pixel.b).update(i + 1, pixel.g).update(i + 2, pixel.r).update(
                    i + 3,
                    pixel.a,
                ),
            },
            final(self).width == old(self).width,
            final(self).height == old(self).height,
            final(final(self).buf)@ == final(old(self).buf)@,
    {
        match self.offset(x, y) {
            None => {},
            Some(i) => {
                self.buf[i] = pixel.b;
                self.buf[i + 1] = pixel.g;
                self.buf[i + 2] = pixel.r;
                self.buf[i + 3] = pixel.a;
            },
        }
    }

    fn offset(&self, x: i32, y: i32) -> (at: Option<usize>)
        requires
            pixel_offset(self.width, self.height, x as int, y as int) matches Some(i) ==> i + 4 <= self.bytes().len(),
        ensures
            at is Some <==> pixel_offset(self.width, self.height, x as int, y as int) is Some,
            at matches Some(i) ==> Some(i as int) == pixel_offset(self.width, self.height, x as int, y as int)
                && i + 4 <= self.bytes().len(),
    {
        if x < 0 || y < 0 || x >= cast_i32(self.width) || y >= cast_i32(self.height) {
            return None;
        }
        proof {
            assert(0 <= y * self.width) by (nonlinear_arith)
                requires
                    0 <= y,
                    0 <= self.width,
            ;
        }
        let room: usize = self.buf.len();
        assert((y * self.width + x) * 4 + 4 <= room);
        Some((y as usize * self.width as usize + x as usize) * 4)
    }
}

/// Mirroring twice is no mirroring: a frame whose rows are already reversed,
/// drawn with `blit_flipped_h`, gives what `blit` gives of the frame itself.
pub proof fn flipped_blit_of_mirrored_frame(
    buf: Seq<u8>,
    width: int,
    src: Seq<u8>,
    mirrored: Seq<u8>,
    src_w: int,
    src_h: int,
    x: int,
    y: int,
)
    requires
        0 < width,
        0 <= x,
        0 <= y,
        0 <= src_w,
        0 <= src_h,
        src.len() == src_w * src_h * 4,
        mirrored == blitted(src, src_w, src, src_w, src_h, 0, 0, true),
    ensures
        blitted(buf, width, mirrored, src_w, src_h, x, y, true) == blitted(buf, width, src, src_w, src_h, x, y, false),
{
    let l = blitted(buf, width, mirrored, src_w, src_h, x, y, true);
    let r = blitted(buf, width, src, src_w, src_h, x, y, false);
    assert forall|i: int| 0 <= i < buf.len() implies l[i] == r[i] by {
        let col = (i / 4) % width;
        let row = (i / 4) / width;
        if x <= col < x + src_w && y <= row < y + src_h {
            let b = i % 4;
            let sx = src_w - 1 - (col - x);
            let j = ((row - y) * src_w + sx) * 4 + b;
            lemma_pixel_of_byte(src_w, row - y, sx, b);
            assert((row - y) * src_w + src_w <= src_h * src_w) by (nonlinear_arith)
                requires
                    row - y + 1 <= src_h,
                    0 <= src_w,
            ;
            assert(0 <= (row - y) * src_w) by (nonlinear_arith)
                requires
                    0 <= row - y,
                    0 <= src_w,
            ;
            assert(src_w * src_h == src_h * src_w) by (nonlinear_arith);
            assert(0 <= j < src.len());
            assert(mirrored[j] == src[((row - y) * src_w + (col - x)) * 4 + b]);
        }
    }
    assert(l =~= r);
}

/// The bytes that a canvas row and column have, before and after an image is
/// copied: the image's pixel where it lies (from the other side of its row when
/// mirrored), the canvas's own everywhere else.
pub proof fn blits_put_each_pixel_in_its_place(
    buf: Seq<u8>,
    width: int,
    src: Seq<u8>,
    src_w: int,
    src_h: int,
    x: int,
    y: int,
    flip: bool,
    col: int,
    row: int,
    channel: int,
)
    requires
        0 <= col < width,
        0 <= row,
        0 <= channel < 4,
        (row * width + col) * 4 + channel < buf.len(),
    ensures
        ({
            let at = (row * width + col) * 4 + channel;
            let after = blitted(buf, width, src, src_w, src_h, x, y, flip);
            let dx = col - x;
            let dy = row - y;
            &&& after.len() == buf.len()
            &&& 0 <= dx < src_w && 0 <= dy < src_h && !flip ==> after[at] == src[(dy * src_w + dx) * 4 + channel]
            &&& 0 <= dx < src_w && 0 <= dy < src_h && flip ==> after[at] == src[(dy * src_w + (src_w - 1 - dx)) * 4
                + channel]
            &&& dx < 0 || dx >= src_w || dy < 0 || dy >= src_h ==> after[at] == buf[at]
        }),
{
    lemma_pixel_of_byte(width, row, col, channel);
    assert(0 <= row * width) by (nonlinear_arith)
        requires
            0 <= row,
            0 < width,
    ;
}

/// An image is drawn exactly if its last pixel, and so all of it, lies on the
/// canvas.
pub proof fn images_fit_whole_or_not_at_all(width: int, height: int, src_w: int, src_h: int, x: int, y: int)
    requires
        0 < src_w,
        0 < src_h,
    ensures
        fits(width, height, src_w, src_h, x, y) <==> x + (src_w - 1) < width && y + (src_h - 1) < height,
{
}

/// A pixel is four bytes of the buffer, in rows of the canvas's width, in the
/// order blue, green, red, alpha; off the canvas there is none.
pub proof fn pixels_lie_row_by_row(canvas: &Canvas<'_>, x: i32, y: i32, pixel: Option<Pixel>)
    requires
        call_ensures(Canvas::pixel, (canvas, x, y), pixel),
        canvas.width <= i32::MAX,
        canvas.height <= i32::MAX,
    ensures
        pixel is Some <==> 0 <= x < canvas.width && 0 <= y < canvas.height,
        pixel matches Some(p) ==> {
            let at = 4 * (y * canvas.width + x);
            &&& p.b == canvas.bytes()[at]
            &&& p.g == canvas.bytes()[at + 1]
            &&& p.r == canvas.bytes()[at + 2]
            &&& p.a == canvas.bytes()[at + 3]
        },
{
}

} // verus!
