//! The mascot's layer surface, as far as it is decided here: geometry, what of
//! it takes input, and when it is mapped. Anchored TOP|LEFT - margins are the
//! position, and the persisted position is the *mascot's* top-left, with the
//! surface offset derived from the layout quadrant.

use vstd::prelude::*;

use crate::compose::Geometry;
use crate::input::router::input_rects;
use crate::input::router::Rect;
use crate::ints::div_i32;
use crate::surface::layout::Layout;
use crate::surface::visibility::Mapping;
use crate::surface::visibility::Visibility;

verus! {

/// Gap from the screen edges for the default bottom-right placement.
pub const EDGE_MARGIN: i32 = 24;

#[derive(Debug, Clone, Copy, PartialEq, Eq)]
pub struct Mascot {
    pub layout: Layout,
    /// Integer upscale applied to sprite pixels (independent of HiDPI).
    pub sprite_scale: u32,
    /// wl_output integer buffer scale.
    pub output_scale: i32,
    pub configured: bool,
    pub visibility: Visibility,
    /// Bubble box (logical surface coords) while shown: click target and
    /// input-region member.
    pub bubble_rect: Option<Rect>,
}

/// What a configure calls for.
#[derive(Debug, Clone, Copy, PartialEq, Eq, Structural)]
pub enum Configured {
    /// The mascot is hidden: nothing is drawn.
    Quiet,
    /// The mascot becomes visible.
    Revealed,
    /// The mascot was visible: draw it again.
    Refreshed,
}

/// A box in physical pixels, in logical ones.
pub open spec fn logical_box(px: (i32, i32, u32, u32), scale: int) -> Rect {
    Rect {
        x: crate::ints::quot(px.0 as int, scale) as i32,
        y: crate::ints::quot(px.1 as int, scale) as i32,
        w: (px.2 as int / scale) as u32,
        h: (px.3 as int / scale) as u32,
    }
}

/// The bubble's box in logical pixels, while there is one.
pub open spec fn logical_bubble(px: Option<(i32, i32, u32, u32)>, scale: int) -> Option<Rect> {
    match px {
        Some(b) => Some(logical_box(b, scale)),
        None => None,
    }
}

impl Mascot {
    pub open spec fn wf(&self) -> bool {
        self.layout.wf()
    }

    /// Physical pixels per logical one.
    pub open spec fn scale(&self) -> int {
        crate::ints::max_of(self.output_scale as int, 1)
    }

    /// A new mascot's surface awaits its first configure, to be shown then or
    /// to stay hidden.
    pub fn create(mascot_w: u32, mascot_h: u32, sprite_scale: u32, visible: bool) -> (mascot: Self)
        requires
            mascot_h + crate::surface::bubble::zone() <= u32::MAX,
        ensures
            mascot.wf(),
            mascot.layout.mascot_w == mascot_w,
            mascot.layout.mascot_h == mascot_h,
            mascot.layout.bubble_above,
            mascot.layout.anchor_right,
            mascot.sprite_scale == sprite_scale,
            mascot.output_scale == 1,
            !mascot.configured,
            mascot.visibility == if visible {
                Visibility::Remapping
            } else {
                Visibility::Hidden
            },
            mascot.bubble_rect is None,
    {
        Mascot {
            layout: Layout::new(mascot_w, mascot_h),
            sprite_scale,
            output_scale: 1,
            configured: false,
            visibility: if visible {
                Visibility::Remapping
            } else {
                Visibility::Hidden
            },
            bubble_rect: None,
        }
    }

    /// Current logical surface size (always the docked size - the pet moves
    /// via margins, it does not resize to drag).
    pub fn surface_size(&self) -> (size: (u32, u32))
        ensures
            size == (self.layout.surf_w, self.layout.surf_h),
    {
        (self.layout.surf_w, self.layout.surf_h)
    }

    /// Pick the layout quadrant so the surface margins stay non-negative
    /// (the bubble flips below/right of the sprite near the top/left edges).
    /// `(mx, my)` is the mascot's top-left local to the surface's output.
    pub fn relayout(&mut self, at: (i32, i32))
        requires
            old(self).wf(),
        ensures
            final(self).wf(),
            *final(self) == (Mascot { layout: old(self).layout.placed(at.0 as int, at.1 as int), ..*old(self) }),
    {
        self.layout.relayout(at.0, at.1);
    }

    /// Derive surface margins (top, left) from the mascot's output-local
    /// top-left.
    pub fn apply_margins(&self, at: (i32, i32)) -> (margins: (i32, i32))
        requires
            self.wf(),
            self.layout.margins_fit(at.0 as int, at.1 as int),
        ensures
            margins.0 == at.1 - self.layout.mascot_y,
            margins.1 == at.0 - self.layout.mascot_x,
    {
        self.layout.margins(at.0, at.1)
    }

    pub fn sprite_rect(&self) -> (rect: Rect)
        requires
            self.wf(),
        ensures
            rect == self.layout.sprite(),
    {
        self.layout.sprite_rect()
    }

    /// Input region = sprite rect + the bubble box while shown (tail/gap and
    /// the rest of the canvas stay click-through).
    pub fn update_input_region(&self) -> (rects: Vec<Rect>)
        requires
            self.wf(),
        ensures
            rects@ == crate::input::router::input_of(self.layout.sprite(), self.bubble_rect),
    {
        input_rects(self.layout.sprite_rect(), self.bubble_rect)
    }

    /// Re-request the mapped state after an unmap (the protocol requires a
    /// fresh initial commit + configure before a buffer may attach again).
    /// Returns the surface margins (top, left) to ask for.
    pub fn request_remap(&mut self, at: (i32, i32)) -> (margins: (i32, i32))
        requires
            old(self).wf(),
            old(self).layout.margins_fit(at.0 as int, at.1 as int),
        ensures
            *final(self) == (Mascot { configured: false, visibility: old(self).visibility.after(Mapping::Remap), ..*old(self) }),
            margins.0 == at.1 - old(self).layout.mascot_y,
            margins.1 == at.0 - old(self).layout.mascot_x,
    {
        self.configured = false;
        self.visibility = Visibility::Remapping;
        self.layout.margins(at.0, at.1)
    }

    /// Unmapped: a null buffer is committed.
    pub fn unmap(&mut self)
        ensures
            *final(self) == (Mascot { configured: false, visibility: old(self).visibility.after(Mapping::Unmap), ..*old(self) }),
    {
        self.configured = false;
        self.visibility = Visibility::Hidden;
    }

    /// The compositor configured the surface.
    pub fn configure(&mut self) -> (step: Configured)
        ensures
            *final(self) == (Mascot {
                configured: true,
                visibility: old(self).visibility.after(Mapping::Configure),
                ..*old(self)
            }),
            step == match old(self).visibility {
                Visibility::Hidden => Configured::Quiet,
                Visibility::Remapping => Configured::Revealed,
                Visibility::Visible => Configured::Refreshed,
            },
    {
        self.configured = true;
        match self.visibility {
            Visibility::Hidden => Configured::Quiet,
            Visibility::Remapping => {
                self.visibility = Visibility::Visible;
                Configured::Revealed
            },
            Visibility::Visible => Configured::Refreshed,
        }
    }

    /// The output's buffer scale changed. Returns whether it is to be asked
    /// for.
    pub fn set_output_scale(&mut self, factor: i32) -> (ask: bool)
        ensures
            ask == (factor != old(self).output_scale && factor >= 1),
            *final(self) == if ask {
                Mascot { output_scale: factor, ..*old(self) }
            } else {
                *old(self)
            },
    {
        if factor == self.output_scale || factor < 1 {
            return false;
        }
        self.output_scale = factor;
        true
    }

    /// The compositor does not support the scale: draw unscaled.
    pub fn scale_refused(&mut self)
        ensures
            *final(self) == (Mascot { output_scale: 1, ..*old(self) }),
    {
        self.output_scale = 1;
    }

    /// Everything that composing a frame needs.
    pub fn geometry(&self) -> (geo: Geometry)
        ensures
            geo == (Geometry {
                surf_w: self.layout.surf_w,
                surf_h: self.layout.surf_h,
                mascot_x: self.layout.mascot_x,
                mascot_y: self.layout.mascot_y,
                mascot_w: self.layout.mascot_w,
                bubble_above: self.layout.bubble_above,
                anchor_right: self.layout.anchor_right,
                sprite_scale: self.sprite_scale,
                oscale: self.scale() as u32,
            }),
    {
        Geometry {
            surf_w: self.layout.surf_w,
            surf_h: self.layout.surf_h,
            mascot_x: self.layout.mascot_x,
            mascot_y: self.layout.mascot_y,
            mascot_w: self.layout.mascot_w,
            bubble_above: self.layout.bubble_above,
            anchor_right: self.layout.anchor_right,
            sprite_scale: self.sprite_scale,
            oscale: if self.output_scale > 1 {
                self.output_scale as u32
            } else {
                1
            },
        }
    }

    /// A frame was drawn, with the bubble's box (physical pixels) where one
    /// was. Returns the new input region when the box changed.
    pub fn bubble_drawn(&mut self, px: Option<(i32, i32, u32, u32)>) -> (region: Option<Vec<Rect>>)
        requires
            old(self).wf(),
        ensures
            *final(self) == (Mascot { bubble_rect: logical_bubble(px, old(self).scale()), ..*old(self) }),
            match region {
                Some(rects) => {
                    &&& old(self).bubble_rect != logical_bubble(px, old(self).scale())
                    &&& rects@ == crate::input::router::input_of(
                        old(self).layout.sprite(),
                        logical_bubble(px, old(self).scale()),
                    )
                },
                None => old(self).bubble_rect == logical_bubble(px, old(self).scale()),
            },
    {
        let scale: i32 = if self.output_scale > 1 {
            self.output_scale
        } else {
            1
        };
        let rect: Option<Rect> = match px {
            Some((x, y, w, h)) => Some(
                Rect { x: div_i32(x, scale), y: div_i32(y, scale), w: w / scale as u32, h: h / scale as u32 },
            ),
            None => None,
        };
        let same: bool = match (rect, self.bubble_rect) {
            (None, None) => true,
            (Some(a), Some(b)) => a == b,
            _ => false,
        };
        if same {
            return None;
        }
        self.bubble_rect = rect;
        Some(input_rects(self.layout.sprite_rect(), rect))
    }
}

/// A box in physical pixels starts at the logical pixel that its corner lies in
/// and is as many whole logical pixels wide and high as it covers.
pub proof fn boxes_are_told_in_logical_pixels(px: (i32, i32, u32, u32), scale: int)
    requires
        1 <= scale <= i32::MAX,
        0 <= px.0,
        0 <= px.1,
    ensures
        ({
            let r = logical_box(px, scale);
            &&& scale * r.x <= px.0 < scale * r.x + scale
            &&& scale * r.y <= px.1 < scale * r.y + scale
            &&& scale * r.w <= px.2 < scale * r.w + scale
            &&& scale * r.h <= px.3 < scale * r.h + scale
        }),
{
    lemma_shrunk(px.0 as int, scale);
    lemma_shrunk(px.1 as int, scale);
    lemma_shrunk(px.2 as int, scale);
    lemma_shrunk(px.3 as int, scale);
}

proof fn lemma_shrunk(n: int, d: int)
    requires
        0 <= n,
        1 <= d,
    ensures
        0 <= n / d <= n,
        d * (n / d) <= n < d * (n / d) + d,
{
    vstd::arithmetic::div_mod::lemma_fundamental_div_mod(n, d);
    vstd::arithmetic::div_mod::lemma_div_pos_is_pos(n, d);
    vstd::arithmetic::div_mod::lemma_div_is_ordered_by_denominator(n, 1, d);
}

/// What is composed is the mascot as it is: its surface, its sprite's place and
/// scale, and its output's scale, one at least.
pub proof fn geometry_is_the_mascots(mascot: &Mascot, geo: Geometry)
    requires
        call_ensures(Mascot::geometry, (mascot,), geo),
    ensures
        geo.surf_w == mascot.layout.surf_w,
        geo.surf_h == mascot.layout.surf_h,
        geo.mascot_x == mascot.layout.mascot_x,
        geo.mascot_y == mascot.layout.mascot_y,
        geo.mascot_w == mascot.layout.mascot_w,
        geo.bubble_above == mascot.layout.bubble_above,
        geo.anchor_right == mascot.layout.anchor_right,
        geo.sprite_scale == mascot.sprite_scale,
        mascot.output_scale >= 1 ==> geo.oscale == mascot.output_scale,
        mascot.output_scale < 1 ==> geo.oscale == 1,
{
}

} // verus!
