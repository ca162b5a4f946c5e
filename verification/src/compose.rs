//! Frame composition: sprite blit + where the bubble goes, shared verbatim by
//! the live renderer and the offline preview, so what is previewed is what is
//! shown.

use vstd::prelude::*;

use crate::canvas::Canvas;
use crate::ints::cast_i32;
use crate::sprite::sheet::Sheet;
use crate::sprite::timeline::Timeline;
use crate::sprite::timeline::TimelineView;
use crate::surface::bubble::BubbleArea;

verus! {

/// Logical target height the sprite scale aims for (integer scaling only,
/// so 64px pets render 2x, 208px pets 1x).
pub const TARGET_LOGICAL_PX: u32 = 128;

/// Pure geometry of the surface: everything compose needs, nothing Wayland.
#[derive(Debug, Clone, Copy, PartialEq, Eq, Structural)]
pub struct Geometry {
    pub surf_w: u32,
    pub surf_h: u32,
    pub mascot_x: u32,
    pub mascot_y: u32,
    pub mascot_w: u32,
    pub bubble_above: bool,
    pub anchor_right: bool,
    pub sprite_scale: u32,
    pub oscale: u32,
}

impl Geometry {
    /// Physical pixels per logical one.
    pub open spec fn scale(self) -> int {
        crate::ints::max_of(self.oscale as int, 1)
    }

    /// Physical pixels per sprite pixel.
    pub open spec fn factor(self) -> int {
        self.sprite_scale * self.scale()
    }

    pub fn buf_size(&self) -> (size: (u32, u32))
        requires
            self.surf_w * self.oscale <= u32::MAX,
            self.surf_h * self.oscale <= u32::MAX,
        ensures
            size.0 == self.surf_w * self.oscale,
            size.1 == self.surf_h * self.oscale,
    {
        (self.surf_w * self.oscale, self.surf_h * self.oscale)
    }
}

/// The frame that is shown: the timeline's, or the first where the sheet has
/// no such frame, or none at all.
pub open spec fn shown_frame(frames: Seq<Seq<u8>>, index: usize) -> Option<Seq<u8>> {
    if index < frames.len() {
        Some(frames[index as int])
    } else if frames.len() > 0 {
        Some(frames[0])
    } else {
        None
    }
}

/// The buffer after a frame is composed: nothing but the sprite, where it
/// fits.
pub open spec fn composed(len: nat, geo: Geometry, frame: Seq<u8>, frame_w: int, frame_h: int) -> Seq<u8> {
    let clear = Seq::new(len, |i: int| 0u8);
    let w = geo.surf_w * geo.oscale;
    let h = geo.surf_h * geo.oscale;
    let x = geo.mascot_x * geo.scale();
    let y = geo.mascot_y * geo.scale();
    let sprite_w = frame_w * geo.factor();
    let sprite_h = frame_h * geo.factor();
    if crate::canvas::fits(w, h, sprite_w, sprite_h, x, y) {
        crate::canvas::blitted(clear, w, frame, sprite_w, sprite_h, x, y, false)
    } else {
        clear
    }
}

/// Where the bubble anchors, for visible content between the sprite rows
/// `top` and `bottom`.
pub open spec fn area_of(geo: Geometry, top: int, bottom: int) -> BubbleArea {
    let sprite_y = crate::ints::wrap_i32((geo.mascot_y * geo.scale()) as u32);
    BubbleArea {
        canvas_w: (geo.surf_w * geo.oscale) as u32,
        canvas_h: (geo.surf_h * geo.oscale) as u32,
        sprite_x: crate::ints::wrap_i32((geo.mascot_x * geo.scale()) as u32) as i32,
        sprite_w: (geo.mascot_w * geo.scale()) as u32,
        content_top: (sprite_y + crate::ints::wrap_i32((top * geo.factor()) as u32)) as i32,
        content_bottom: (sprite_y + crate::ints::wrap_i32((bottom * geo.factor()) as u32)) as i32,
        above: geo.bubble_above,
        anchor_right: geo.anchor_right,
        scale: geo.scale() as u32,
    }
}

/// What composing needs of the machine's integers and of the buffer.
pub open spec fn scene_room(buf_len: nat, geo: Geometry, sheet: Sheet, bubble: bool) -> bool {
    let w = geo.surf_w * geo.oscale;
    let h = geo.surf_h * geo.oscale;
    let x = geo.mascot_x * geo.scale();
    let y = geo.mascot_y * geo.scale();
    let sprite_w = sheet.width() * geo.factor();
    let sprite_h = sheet.height() * geo.factor();
    &&& geo.factor() <= u32::MAX
    &&& w <= u32::MAX
    &&& h <= u32::MAX
    &&& sprite_w <= u32::MAX
    &&& sprite_h <= u32::MAX
    &&& sheet.frames().len() > 0 ==> {
        &&& geo.factor() >= 2 ==> crate::sprite::sheet::scale_room(
            sheet.width() as int,
            sheet.height() as int,
            geo.factor(),
        )
        &&& x <= u32::MAX
        &&& y <= u32::MAX
        &&& x + sprite_w <= u32::MAX
        &&& x + sprite_w <= w ==> y + sprite_h <= u32::MAX
        &&& crate::canvas::fits(w, h, sprite_w, sprite_h, x, y) && sprite_w > 0 && sprite_h > 0 ==> ((y + sprite_h - 1)
            * w + x + sprite_w) * 4 <= buf_len
        &&& bubble ==> {
            &&& geo.mascot_w * geo.scale() <= u32::MAX
            &&& forall|row: int|
                0 <= row <= sheet.height() ==> crate::surface::outputs::fits_i32(
                    crate::ints::wrap_i32(y as u32) + #[trigger] crate::ints::wrap_i32((row * geo.factor()) as u32),
                )
        }
    }
}

/// The sprite indices of a timeline's current track.
pub open spec fn track_sprites(timeline: TimelineView) -> Seq<usize> {
    timeline.track().frames.map_values(|f: crate::sprite::animation::Frame| f.sprite_index)
}

/// Compose one frame. Returns where the bubble goes when there is one to draw.
pub fn scene(buf: &mut [u8], geo: &Geometry, sheet: &mut Sheet, timeline: &Timeline, bubble: bool) -> (area: Option<
    BubbleArea,
>)
    requires
        old(sheet).wf(),
        timeline.wf(),
        scene_room(old(buf)@.len(), *geo, *old(sheet), bubble),
    ensures
        final(sheet).wf(),
        final(sheet).frames() == old(sheet).frames(),
        final(sheet).width() == old(sheet).width(),
        final(sheet).height() == old(sheet).height(),
        final(buf)@ == match shown_frame(
            old(sheet).frames_for(geo.factor()),
            timeline@.track().frames[timeline@.frame].sprite_index,
        ) {
            None => old(buf)@,
            Some(frame) => composed(
                old(buf)@.len(),
                *geo,
                frame,
                old(sheet).width() as int,
                old(sheet).height() as int,
            ),
        },
        match area {
            Some(a) => {
                &&& bubble
                &&& old(sheet).frames().len() > 0
                &&& exists|top: int, bottom: int| #[trigger]
                    old(sheet).is_content_span(track_sprites(timeline@), top, bottom) && a == area_of(
                        *geo,
                        top,
                        bottom,
                    )
            },
            None => !bubble || old(sheet).frames().len() == 0,
        },
{
    let oscale: u32 = if geo.oscale >= 1 {
        geo.oscale
    } else {
        1
    };
    let factor: u32 = geo.sprite_scale * oscale;
    let (buf_w, buf_h): (u32, u32) = geo.buf_size();
    let index: usize = timeline.sprite_index();
    // Anchor the bubble to the sprite's visible ink, not the frame rect:
    // sprites sit low inside padded frames, and the bubble must hug what
    // the eye sees. Track-wide extent so it does not jitter per frame.
    let sprites: Vec<usize> = timeline.current_sprites();
    let (ink_top, ink_bottom): (u32, u32) = sheet.content_vspan(sprites.as_slice());
    let sprite_w: u32 = sheet.frame_width() * factor;
    let sprite_h: u32 = sheet.frame_height() * factor;
    let ghost before = *sheet;
    let frames: &[Vec<u8>] = sheet.frames_at(factor);
    assert(crate::sprite::sheet::frame_bytes(frames@).len() == frames@.len());
    let frame: &Vec<u8> = if index < frames.len() {
        &frames[index]
    } else if frames.len() > 0 {
        &frames[0]
    } else {
        return None;
    };
    proof {
        assert(frame@ == shown_frame(before.frames_for(factor as int), index)->0);
        lemma_frame_room(before.width() as int, before.height() as int, factor as int, frame@.len() as int);
    }
    let mut canvas = Canvas::new(buf, buf_w, buf_h);
    canvas.clear();
    canvas.blit(frame.as_slice(), sprite_w, sprite_h, geo.mascot_x * oscale, geo.mascot_y * oscale);
    if !bubble {
        return None;
    }
    let sprite_y: i32 = cast_i32(geo.mascot_y * oscale);
    proof {
        lemma_row_room(before.height() as int, factor as int, ink_top as int);
        lemma_row_room(before.height() as int, factor as int, ink_bottom as int);
        assert(crate::surface::outputs::fits_i32(
            crate::ints::wrap_i32((geo.mascot_y * geo.scale()) as u32) + crate::ints::wrap_i32(
                (ink_top * geo.factor()) as u32,
            ),
        ));
        assert(crate::surface::outputs::fits_i32(
            crate::ints::wrap_i32((geo.mascot_y * geo.scale()) as u32) + crate::ints::wrap_i32(
                (ink_bottom * geo.factor()) as u32,
            ),
        ));
    }
    let area = BubbleArea {
        canvas_w: buf_w,
        canvas_h: buf_h,
        sprite_x: cast_i32(geo.mascot_x * oscale),
        sprite_w: geo.mascot_w * oscale,
        content_top: sprite_y + cast_i32(ink_top * factor),
        content_bottom: sprite_y + cast_i32(ink_bottom * factor),
        above: geo.bubble_above,
        anchor_right: geo.anchor_right,
        scale: oscale,
    };
    assert(before.is_content_span(track_sprites(timeline@), ink_top as int, ink_bottom as int));
    assert(area == area_of(*geo, ink_top as int, ink_bottom as int));
    Some(area)
}

proof fn lemma_frame_room(w: int, h: int, factor: int, len: int)
    requires
        0 <= w,
        0 <= h,
        0 <= factor,
        len == (w * crate::ints::max_of(factor, 1)) * (h * crate::ints::max_of(factor, 1)) * 4,
    ensures
        w * factor > 0 && h * factor > 0 ==> (h * factor) * (w * factor) * 4 <= len,
{
    if factor == 0 {
        assert(w * factor == 0) by (nonlinear_arith)
            requires
                factor == 0,
        ;
    } else {
        assert((h * factor) * (w * factor) == (w * factor) * (h * factor)) by (nonlinear_arith);
    }
}

proof fn lemma_row_room(h: int, factor: int, row: int)
    requires
        0 <= row <= h,
        0 <= factor,
    ensures
        0 <= row * factor <= h * factor,
{
    assert(0 <= row * factor <= h * factor) by (nonlinear_arith)
        requires
            0 <= row <= h,
            0 <= factor,
    ;
}

/// Nothing but the sprite is drawn: outside its rectangle, a composed frame is
/// transparent.
pub proof fn only_the_sprite_is_drawn(len: nat, geo: Geometry, frame: Seq<u8>, frame_w: int, frame_h: int, i: int)
    requires
        0 <= i < len,
        ({
            let w = geo.surf_w * geo.oscale;
            let col = (i / 4) % w;
            let row = (i / 4) / w;
            let x = geo.mascot_x * geo.scale();
            let y = geo.mascot_y * geo.scale();
            !(x <= col < x + frame_w * geo.factor() && y <= row < y + frame_h * geo.factor())
        }),
    ensures
        composed(len, geo, frame, frame_w, frame_h)[i] == 0,
{
}

/// The scale that brings a frame nearest to the target height, and one at
/// least.
pub open spec fn natural_scale(frame_height: int) -> int {
    crate::ints::max_of((TARGET_LOGICAL_PX + frame_height / 2) / frame_height, 1)
}

/// Integer upscale of the sprite: `wanted` brought into 1..=8, or the natural
/// one of the frame's height.
pub fn sprite_scale_for(frame_height: u32, wanted: Option<u32>) -> (scale: u32)
    requires
        wanted is None ==> frame_height > 0,
    ensures
        scale == match wanted {
            Some(s) => crate::ints::clamped(s as int, 1, 8),
            None => natural_scale(frame_height as int),
        },
{
    if let Some(s) = wanted {
        return if s < 1 {
            1
        } else if s > 8 {
            8
        } else {
            s
        };
    }
    let scale: u32 = (TARGET_LOGICAL_PX + frame_height / 2) / frame_height;
    if scale >= 1 {
        scale
    } else {
        1
    }
}

/// No other integer scale brings a frame of up to twice the target height
/// nearer to it; taller frames are not enlarged.
pub proof fn natural_scale_is_nearest(frame_height: int, other: int)
    requires
        0 < frame_height,
        0 <= other,
    ensures
        ({
            let s = natural_scale(frame_height);
            let off = s * frame_height - TARGET_LOGICAL_PX;
            let other_off = other * frame_height - TARGET_LOGICAL_PX;
            &&& s >= 1
            &&& frame_height <= 256 ==> off * off <= other_off * other_off
            &&& frame_height > 256 ==> s == 1
        }),
{
    let f = frame_height;
    let n = 128 + f / 2;
    let s = n / f;
    vstd::arithmetic::div_mod::lemma_fundamental_div_mod(n, f);
    let off = s * f - 128;
    assert(s * f == f * s) by (nonlinear_arith);
    assert(-f <= 2 * off <= f);
    if f <= 256 {
        assert(s >= 1) by (nonlinear_arith)
            requires
                n == f * s + n % f,
                n % f < f,
                n >= f,
                0 < f,
        ;
        if other > s {
            assert(other * f >= s * f + f) by (nonlinear_arith)
                requires
                    other >= s + 1,
                    0 < f,
            ;
        }
        if other < s {
            assert(other * f <= s * f - f) by (nonlinear_arith)
                requires
                    other <= s - 1,
                    0 < f,
            ;
        }
        let other_off = other * f - 128;
        assert(other == s || other_off >= f - f / 2 || -other_off >= f - f / 2) by {
        }
        if other != s {
            lemma_square_order(off, other_off, f);
        }
    } else {
        assert(s < 2) by (nonlinear_arith)
            requires
                n == f * s + n % f,
                0 <= n % f,
                n < f + f,
                0 < f,
        ;
    }
}

proof fn lemma_square_order(a: int, b: int, f: int)
    requires
        0 < f,
        -f <= 2 * a <= f,
        2 * b >= f || -2 * b >= f,
    ensures
        a * a <= b * b,
{
    assert(a * a <= b * b) by (nonlinear_arith)
        requires
            0 < f,
            -f <= 2 * a <= f,
            2 * b >= f || -2 * b >= f,
    ;
}

/// A composed frame shows the sprite at its place and nothing else: where the
/// whole of it fits, the canvas pixel (col, row) is the frame's pixel that lies
/// there, unmirrored; every other is transparent.
pub proof fn sprites_are_drawn_at_their_place(
    len: nat,
    geo: Geometry,
    frame: Seq<u8>,
    frame_w: int,
    frame_h: int,
    col: int,
    row: int,
    channel: int,
)
    requires
        1 <= geo.oscale,
        0 <= col < geo.surf_w * geo.oscale,
        0 <= row,
        0 <= channel < 4,
        0 <= frame_w,
        0 <= frame_h,
        (row * (geo.surf_w * geo.oscale) + col) * 4 + channel < len,
        geo.mascot_x * geo.oscale + frame_w * (geo.sprite_scale * geo.oscale) <= geo.surf_w * geo.oscale,
        geo.mascot_y * geo.oscale + frame_h * (geo.sprite_scale * geo.oscale) <= geo.surf_h * geo.oscale,
    ensures
        ({
            let at = (row * (geo.surf_w * geo.oscale) + col) * 4 + channel;
            let wide = frame_w * (geo.sprite_scale * geo.oscale);
            let high = frame_h * (geo.sprite_scale * geo.oscale);
            let dx = col - geo.mascot_x * geo.oscale;
            let dy = row - geo.mascot_y * geo.oscale;
            let out = composed(len, geo, frame, frame_w, frame_h);
            &&& out.len() == len
            &&& 0 <= dx < wide && 0 <= dy < high ==> out[at] == frame[(dy * wide + dx) * 4 + channel]
            &&& dx < 0 || dx >= wide || dy < 0 || dy >= high ==> out[at] == 0
        }),
{
    let w = geo.surf_w * geo.oscale;
    let clear = Seq::new(len, |i: int| 0u8);
    assert(geo.scale() == geo.oscale);
    crate::canvas::blits_put_each_pixel_in_its_place(
        clear,
        w,
        frame,
        frame_w * geo.factor(),
        frame_h * geo.factor(),
        geo.mascot_x * geo.scale(),
        geo.mascot_y * geo.scale(),
        false,
        col,
        row,
        channel,
    );
    assert(0 <= row * w) by (nonlinear_arith)
        requires
            0 <= row,
            0 < w,
    ;
    assert(0 <= (row * w + col) * 4 + channel);
}

/// The frame that is shown is the one of that index, the first where the sheet
/// has no such frame; only an empty sheet shows none.
pub proof fn shown_frame_is_the_indexed_one(frames: Seq<Seq<u8>>, index: usize)
    ensures
        shown_frame(frames, index) is None <==> frames.len() == 0,
        index < frames.len() ==> shown_frame(frames, index) == Some(frames[index as int]),
        frames.len() > 0 && index >= frames.len() ==> shown_frame(frames, index) == Some(frames[0]),
{
}

/// The bubble's area is the whole canvas, with the sprite where it is drawn and
/// the visible rows counted from the sprite's top, in physical pixels.
pub proof fn bubble_area_is_where_the_sprite_is(geo: Geometry, top: int, bottom: int)
    requires
        1 <= geo.oscale,
        0 <= top,
        0 <= bottom,
        geo.surf_w * geo.oscale <= u32::MAX,
        geo.surf_h * geo.oscale <= u32::MAX,
        geo.mascot_w * geo.oscale <= u32::MAX,
        geo.mascot_x * geo.oscale <= i32::MAX,
        geo.mascot_y * geo.oscale + top * (geo.sprite_scale * geo.oscale) <= i32::MAX,
        geo.mascot_y * geo.oscale + bottom * (geo.sprite_scale * geo.oscale) <= i32::MAX,
    ensures
        ({
            let area = area_of(geo, top, bottom);
            &&& area.canvas_w == geo.surf_w * geo.oscale
            &&& area.canvas_h == geo.surf_h * geo.oscale
            &&& area.sprite_x == geo.mascot_x * geo.oscale
            &&& area.sprite_w == geo.mascot_w * geo.oscale
            &&& area.content_top == geo.mascot_y * geo.oscale + top * (geo.sprite_scale * geo.oscale)
            &&& area.content_bottom == geo.mascot_y * geo.oscale + bottom * (geo.sprite_scale * geo.oscale)
            &&& area.above == geo.bubble_above
            &&& area.anchor_right == geo.anchor_right
            &&& area.scale == geo.oscale
        }),
{
    let o = geo.oscale as int;
    let f = geo.sprite_scale * o;
    assert(geo.scale() == o);
    assert(0 <= f) by (nonlinear_arith)
        requires
            0 <= geo.sprite_scale,
            1 <= o,
            f == geo.sprite_scale * o,
    ;
    assert(0 <= top * f && 0 <= bottom * f) by (nonlinear_arith)
        requires
            0 <= top,
            0 <= bottom,
            0 <= f,
    ;
    assert(0 <= geo.mascot_y * o && 0 <= geo.mascot_x * o && 0 <= geo.mascot_w * o && 0 <= geo.surf_w * o && 0
        <= geo.surf_h * o) by (nonlinear_arith)
        requires
            1 <= o,
            0 <= geo.mascot_x,
            0 <= geo.mascot_y,
            0 <= geo.mascot_w,
            0 <= geo.surf_w,
            0 <= geo.surf_h,
    ;
}

/// A scale that is asked for counts as it stands from 1 to 8, and is the nearest
/// of these otherwise.
pub proof fn wanted_scales_are_kept_in_range(frame_height: u32, s: u32, scale: u32)
    requires
        call_ensures(sprite_scale_for, (frame_height, Some(s)), scale),
    ensures
        1 <= scale <= 8,
        1 <= s <= 8 ==> scale == s,
        s < 1 ==> scale == 1,
        s > 8 ==> scale == 8,
{
}

/// A buffer has a pixel for every physical pixel of the surface.
pub proof fn buffers_cover_the_surface(geo: &Geometry, size: (u32, u32))
    requires
        call_ensures(Geometry::buf_size, (geo,), size),
    ensures
        size.0 == geo.oscale * geo.surf_w,
        size.1 == geo.oscale * geo.surf_h,
{
    assert(geo.oscale * geo.surf_w == geo.surf_w * geo.oscale) by (nonlinear_arith);
    assert(geo.oscale * geo.surf_h == geo.surf_h * geo.oscale) by (nonlinear_arith);
}

/// The sprites of a track are those of its frames, one for one.
pub proof fn tracks_sprites_are_its_frames(timeline: TimelineView, k: int)
    requires
        0 <= k < timeline.track().frames.len(),
    ensures
        track_sprites(timeline).len() == timeline.animations[timeline.current].frames.len(),
        track_sprites(timeline)[k] == timeline.animations[timeline.current].frames[k].sprite_index,
{
}

/// A frame that does not fit is not drawn at all, not even in part.
pub proof fn frames_that_do_not_fit_are_not_drawn(
    len: nat,
    geo: Geometry,
    frame: Seq<u8>,
    frame_w: int,
    frame_h: int,
    i: int,
)
    requires
        1 <= geo.oscale,
        0 <= i < len,
        geo.mascot_x * geo.oscale + frame_w * (geo.sprite_scale * geo.oscale) > geo.surf_w * geo.oscale
            || geo.mascot_y * geo.oscale + frame_h * (geo.sprite_scale * geo.oscale) > geo.surf_h * geo.oscale,
    ensures
        composed(len, geo, frame, frame_w, frame_h)[i] == 0,
{
    assert(geo.scale() == geo.oscale);
}

} // verus!
