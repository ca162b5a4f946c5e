//! Offline scene rendering for dev tooling: the compose path without a
//! compositor, so bubble placement can be pixel-verified.

use vstd::prelude::*;

use crate::compose::scene;
use crate::compose::Geometry;
use crate::proto::AgentState;
use crate::proto::SessionKey;
use crate::proto::SessionKeyView;
use crate::proto::Source;
use crate::sprite::pet_json::PetDef;
use crate::sprite::semantics::track_for;
use crate::sprite::sheet::Sheet;
use crate::sprite::timeline::Timeline;
use crate::sprite::timeline::TimelineView;
use crate::surface::bubble::zone_height;
use crate::surface::bubble::Bubble;
use crate::surface::bubble::BubbleArea;
use crate::surface::bubble::Content;
use crate::surface::bubble::MAX_WIDTH;

verus! {

/// A premultiplied channel brought back to straight alpha, rounded to nearest.
pub open spec fn straightened(c: u8, a: u8) -> u8 {
    if a == 0 {
        0
    } else {
        crate::ints::min_of((c * 255 + a / 2) / (a as int), 255) as u8
    }
}

fn straight(c: u8, a: u8) -> (s: u8)
    ensures
        s == straightened(c, a),
{
    if a == 0 {
        0
    } else {
        let v: u32 = (c as u32 * 255 + a as u32 / 2) / a as u32;
        if v < 255 {
            v as u8
        } else {
            255
        }
    }
}

/// One byte of a buffer turned from premultiplied B,G,R,A to straight R,G,B,A.
/// Bytes after the last whole pixel are kept.
pub open spec fn straight_byte(buf: Seq<u8>, i: int) -> u8 {
    let p = i - i % 4;
    if p + 4 > buf.len() || i % 4 == 3 {
        buf[i]
    } else {
        straightened(buf[p + 2 - i % 4], buf[p + 3])
    }
}

/// Premultiplied B,G,R,A to straight R,G,B,A, for image output.
pub fn to_straight_rgba(buf: &mut [u8])
    ensures
        final(buf)@ == Seq::new(old(buf)@.len(), |i: int| straight_byte(old(buf)@, i)),
{
    let n: usize = buf.len();
    let ghost before = buf@;
    let mut p: usize = 0;
    while n - p >= 4
        invariant
            p <= n == buf@.len(),
            before.len() == n,
            before == old(buf)@,
            p % 4 == 0,
            forall|i: int| 0 <= i < p ==> #[trigger] buf@[i] == straight_byte(before, i),
            forall|i: int| p <= i < n ==> #[trigger] buf@[i] == before[i],
        decreases n - p,
    {
        let b: u8 = buf[p];
        let g: u8 = buf[p + 1];
        let r: u8 = buf[p + 2];
        let a: u8 = buf[p + 3];
        buf[p] = straight(r, a);
        buf[p + 1] = straight(g, a);
        buf[p + 2] = straight(b, a);
        assert forall|i: int| 0 <= i < p + 4 implies #[trigger] buf@[i] == straight_byte(before, i) by {
            if i >= p {
                assert(i % 4 == i - p);
            }
        }
        p += 4;
    }
    assert(buf@ =~= Seq::new(before.len(), |i: int| straight_byte(before, i)));
}

/// Reading a drawn color back and premultiplying it again gives the drawn
/// bytes: nothing is lost between a buffer and its straight-alpha image.
pub proof fn straightening_loses_nothing(p: u8, a: u8)
    requires
        0 < a,
        p <= a,
    ensures
        crate::sprite::sheet::premultiplied(straightened(p, a), a) == p,
{
    let d = a as int;
    let n = p * 255 + d / 2;
    let u = n / d;
    vstd::arithmetic::div_mod::lemma_fundamental_div_mod(n, d);
    assert(u * d == d * u) by (nonlinear_arith);
    assert(n <= 255 * d + d / 2) by (nonlinear_arith)
        requires
            n == p * 255 + d / 2,
            p <= d,
    ;
    assert(u <= 255) by (nonlinear_arith)
        requires
            n == d * u + n % d,
            0 <= n % d,
            n < 255 * d + d,
            0 < d,
    ;
    assert(0 <= u) by (nonlinear_arith)
        requires
            n == d * u + n % d,
            n % d < d,
            0 <= n,
            0 < d,
    ;
    assert(u * d == p * 255 + d / 2 - n % d);
    assert((u * d + 127) / 255 == p);
}

/// The default bottom-right quadrant, at scale 1: what the live renderer shows
/// of a pet that hugs the screen's corner.
pub fn scene_geometry(frame_w: u32, frame_h: u32, sprite_scale: u32) -> (geo: Geometry)
    requires
        frame_w * sprite_scale <= u32::MAX,
        frame_h * sprite_scale + crate::surface::bubble::zone() <= u32::MAX,
    ensures
        ({
            let w = frame_w * sprite_scale;
            let h = frame_h * sprite_scale;
            let surf_w = crate::ints::max_of(MAX_WIDTH as int, w);
            geo == (Geometry {
                surf_w: surf_w as u32,
                surf_h: (h + crate::surface::bubble::zone()) as u32,
                mascot_x: (surf_w - w) as u32,
                mascot_y: crate::surface::bubble::zone() as u32,
                mascot_w: w as u32,
                bubble_above: true,
                anchor_right: true,
                sprite_scale,
                oscale: 1,
            })
        }),
{
    let mascot_w: u32 = frame_w * sprite_scale;
    let mascot_h: u32 = frame_h * sprite_scale;
    let surf_w: u32 = if MAX_WIDTH > mascot_w {
        MAX_WIDTH
    } else {
        mascot_w
    };
    let surf_h: u32 = mascot_h + zone_height();
    Geometry {
        surf_w,
        surf_h,
        mascot_x: surf_w - mascot_w,
        mascot_y: surf_h - mascot_h,
        mascot_w,
        bubble_above: true,
        anchor_right: true,
        sprite_scale,
        oscale: 1,
    }
}

/// A previewed frame, before its bubble is drawn.
#[derive(Debug)]
pub struct Preview {
    /// Premultiplied B,G,R,A pixels.
    pub buf: Vec<u8>,
    pub width: u32,
    pub height: u32,
    /// The bubble to draw, and where it goes.
    pub bubble: Option<(Bubble, BubbleArea)>,
}

/// The timeline of a pet that shows `track` since the start of the clock, at
/// `elapsed_ms`.
pub open spec fn previewed(pet: PetDef, track: Seq<char>, elapsed_ms: u64) -> TimelineView {
    (TimelineView {
        animations: pet.animations@,
        current: crate::sprite::timeline::idle(),
        frame: 0,
        deadline: crate::sprite::timeline::hold_ms(pet.animations@[crate::sprite::timeline::idle()].frames[0]),
        passes_left: None,
        looping: false,
        requested: crate::sprite::timeline::idle(),
    }).state_requested(track, 0).advanced(elapsed_ms as int)
}

/// Compose one frame exactly as the live renderer would (default bottom-right
/// quadrant, scale 1), all but the text of its bubble.
pub fn compose_scene(
    pet: &PetDef,
    sheet: &mut Sheet,
    state: AgentState,
    body: Option<&str>,
    elapsed_ms: u64,
    sprite_scale: u32,
) -> (preview: Preview)
    requires
        pet.wf(),
        old(sheet).wf(),
        previewed(*pet, crate::sprite::semantics::shown_track(state, *pet), elapsed_ms).deadline <= u64::MAX,
        pet.frame_width * sprite_scale <= u32::MAX,
        pet.frame_height * sprite_scale + crate::surface::bubble::zone() <= u32::MAX,
        scene_geometry_of(*pet, sprite_scale).surf_w * scene_geometry_of(*pet, sprite_scale).surf_h * 4 <= u32::MAX,
        crate::compose::scene_room(
            (scene_geometry_of(*pet, sprite_scale).surf_w * scene_geometry_of(*pet, sprite_scale).surf_h * 4) as nat,
            scene_geometry_of(*pet, sprite_scale),
            *old(sheet),
            body is Some,
        ),
    ensures
        final(sheet).wf(),
        final(sheet).frames() == old(sheet).frames(),
        ({
            let geo = scene_geometry_of(*pet, sprite_scale);
            let timeline = previewed(*pet, crate::sprite::semantics::shown_track(state, *pet), elapsed_ms);
            let len = (geo.surf_w * geo.surf_h * 4) as nat;
            &&& preview.width == geo.surf_w
            &&& preview.height == geo.surf_h
            &&& preview.buf@ == match crate::compose::shown_frame(
                old(sheet).frames_for(sprite_scale as int),
                timeline.track().frames[timeline.frame].sprite_index,
            ) {
                None => Seq::new(len, |i: int| 0u8),
                Some(frame) => crate::compose::composed(
                    len,
                    geo,
                    frame,
                    old(sheet).width() as int,
                    old(sheet).height() as int,
                ),
            }
            &&& match preview.bubble {
                Some((bubble, area)) => {
                    &&& body matches Some(text)
                    &&& bubble.wf()
                    &&& bubble.started_ms == 0
                    &&& bubble.content() == (Content {
                        key: SessionKeyView { source: Source::Other, session: "preview"@ },
                        label: crate::proto::label_of(state),
                        body: text@,
                    })
                    &&& exists|top: int, bottom: int| #[trigger]
                        old(sheet).is_content_span(crate::compose::track_sprites(timeline), top, bottom) && area
                            == crate::compose::area_of(geo, top, bottom)
                },
                None => body is None || old(sheet).frames().len() == 0,
            }
        }),
{
    let mut timeline: Timeline = Timeline::new(pet, 0);
    timeline.request_state(track_for(state, pet), 0);
    let moved: bool = timeline.advance(elapsed_ms);
    let geo: Geometry = scene_geometry(pet.frame_width, pet.frame_height, sprite_scale);
    proof {
        assert(geo == scene_geometry_of(*pet, sprite_scale));
        assert(geo.surf_w * geo.oscale == geo.surf_w && geo.surf_h * geo.oscale == geo.surf_h) by (nonlinear_arith)
            requires
                geo.oscale == 1,
        ;
    }
    let (width, height): (u32, u32) = geo.buf_size();
    proof {
        assert(0 <= width * height) by (nonlinear_arith)
            requires
                0 <= width,
                0 <= height,
        ;
    }
    let len: usize = (width * height * 4) as usize;
    let mut buf: Vec<u8> = Vec::new();
    let mut i: usize = 0;
    while i < len
        invariant
            i <= len,
            buf@ == Seq::new(i as nat, |k: int| 0u8),
        decreases len - i,
    {
        buf.push(0);
        i += 1;
        assert(buf@ =~= Seq::new(i as nat, |k: int| 0u8));
    }
    assert(geo.factor() == sprite_scale) by {
        assert(sprite_scale * 1 == sprite_scale);
    }
    let area: Option<BubbleArea> = scene(buf.as_mut_slice(), &geo, sheet, &timeline, body.is_some());
    let bubble: Option<(Bubble, BubbleArea)> = match (body, area) {
        (Some(text), Some(area)) => Some(
            (Bubble::new(SessionKey::new(Source::Other, "preview"), state.label(), text.to_owned(), 0), area),
        ),
        _ => None,
    };
    Preview { buf, width, height, bubble }
}

/// The geometry of a pet's preview.
pub open spec fn scene_geometry_of(pet: PetDef, sprite_scale: u32) -> Geometry {
    let w = pet.frame_width * sprite_scale;
    let h = pet.frame_height * sprite_scale;
    let surf_w = crate::ints::max_of(MAX_WIDTH as int, w);
    Geometry {
        surf_w: surf_w as u32,
        surf_h: (h + crate::surface::bubble::zone()) as u32,
        mascot_x: (surf_w - w) as u32,
        mascot_y: crate::surface::bubble::zone() as u32,
        mascot_w: w as u32,
        bubble_above: true,
        anchor_right: true,
        sprite_scale,
        oscale: 1,
    }
}

/// Turning a buffer to straight alpha swaps blue and red, keeps alpha, and
/// leaves of each channel the value of which it is the nearest share; a pixel
/// without alpha is black.
pub proof fn straight_pixels_have_their_channels(buf: Seq<u8>, p: int)
    requires
        0 <= p,
        4 * p + 4 <= buf.len(),
    ensures
        ({
            let at = 4 * p;
            let a = buf[at + 3];
            &&& straight_byte(buf, at + 3) == a
            &&& a == 0 ==> straight_byte(buf, at) == 0 && straight_byte(buf, at + 1) == 0 && straight_byte(buf, at + 2)
                == 0
            &&& 0 < a && buf[at + 2] <= a ==> crate::sprite::sheet::premultiplied(straight_byte(buf, at), a)
                == buf[at + 2]
            &&& 0 < a && buf[at + 1] <= a ==> crate::sprite::sheet::premultiplied(straight_byte(buf, at + 1), a)
                == buf[at + 1]
            &&& 0 < a && buf[at] <= a ==> crate::sprite::sheet::premultiplied(straight_byte(buf, at + 2), a) == buf[at]
            &&& a == 255 ==> straight_byte(buf, at) == buf[at + 2] && straight_byte(buf, at + 1) == buf[at + 1]
                && straight_byte(buf, at + 2) == buf[at]
        }),
{
    let at = 4 * p;
    let a = buf[at + 3];
    assert(at % 4 == 0 && (at + 1) % 4 == 1 && (at + 2) % 4 == 2 && (at + 3) % 4 == 3);
    if a == 255 {
        lemma_opaque_is_straight(buf[at]);
        lemma_opaque_is_straight(buf[at + 1]);
        lemma_opaque_is_straight(buf[at + 2]);
    }
    if a > 0 && buf[at] <= a {
        straightening_loses_nothing(buf[at], a);
    }
    if a > 0 && buf[at + 1] <= a {
        straightening_loses_nothing(buf[at + 1], a);
    }
    if a > 0 && buf[at + 2] <= a {
        straightening_loses_nothing(buf[at + 2], a);
    }
}

proof fn lemma_opaque_is_straight(c: u8)
    ensures
        straightened(c, 255) == c,
{
    assert((c * 255 + 127) / 255 == c);
}

/// A straight channel is the whole number nearest to the one that its share
/// was taken of, and full where the share is more than the alpha.
pub proof fn straightening_rounds_to_nearest(c: u8, a: u8)
    requires
        0 < a,
    ensures
        c <= a ==> -(a as int) <= 2 * (straightened(c, a) * a - c * 255) <= a,
        c >= a ==> straightened(c, a) == 255,
{
    let d = a as int;
    let n = c * 255 + d / 2;
    let u = n / d;
    vstd::arithmetic::div_mod::lemma_fundamental_div_mod(n, d);
    assert(u * d == d * u) by (nonlinear_arith);
    if c >= a {
        assert(u >= 255) by (nonlinear_arith)
            requires
                n == d * u + n % d,
                n % d < d,
                n >= 255 * d,
                0 < d,
        ;
    }
    if c <= a {
        assert(u <= 255) by (nonlinear_arith)
            requires
                n == d * u + n % d,
                0 <= n % d,
                n < 255 * d + d,
                0 < d,
        ;
        assert(0 <= u) by (nonlinear_arith)
            requires
                n == d * u + n % d,
                n % d < d,
                0 <= n,
                0 < d,
        ;
    }
}

/// A preview shows the pet as it hugs the bottom right corner of a screen: the
/// sprite at the right and bottom edges of a surface that has room for the
/// widest bubble, and above it room for the highest.
pub proof fn previews_hug_the_corner(frame_w: u32, frame_h: u32, sprite_scale: u32, geo: Geometry)
    requires
        call_ensures(scene_geometry, (frame_w, frame_h, sprite_scale), geo),
        frame_w * sprite_scale <= u32::MAX,
        frame_h * sprite_scale + 100 <= u32::MAX,
    ensures
        geo.mascot_w == frame_w * sprite_scale,
        geo.mascot_x + geo.mascot_w == geo.surf_w,
        geo.mascot_y + frame_h * sprite_scale == geo.surf_h,
        geo.mascot_y == 100,
        geo.surf_w >= 280,
        geo.surf_w == 280 || geo.surf_w == geo.mascot_w,
        geo.bubble_above,
        geo.anchor_right,
        geo.sprite_scale == sprite_scale,
        geo.oscale == 1,
{
    assert(0 <= frame_w * sprite_scale && 0 <= frame_h * sprite_scale) by (nonlinear_arith)
        requires
            0 <= frame_w,
            0 <= frame_h,
            0 <= sprite_scale,
    ;
}

/// A preview starts with the state's own track, at its first frame, and goes on
/// from there as the live pet does.
pub proof fn previews_start_with_the_states_track(pet: PetDef, track: Seq<char>, elapsed_ms: u64)
    requires
        pet.wf(),
        pet.animations@.dom().contains(track),
        track != "idle"@,
        elapsed_ms < crate::sprite::timeline::hold_ms(pet.animations@[track].frames[0]),
    ensures
        previewed(pet, track, elapsed_ms).current == track,
        previewed(pet, track, elapsed_ms).frame == 0,
        previewed(pet, track, elapsed_ms).deadline == crate::sprite::timeline::hold_ms(
            pet.animations@[track].frames[0],
        ),
        previewed(pet, track, elapsed_ms).passes_left == Some(3u32),
{
}

} // verus!
