//! Geometry of the mascot's surface: one fixed-size canvas holds the sprite
//! plus a transparent bubble zone, and the sprite sits in the corner of it
//! that keeps the surface on screen.

use vstd::prelude::*;

use crate::ints::cast_i32;
use crate::input::router::Rect;
use crate::surface::bubble::zone_height;
use crate::surface::bubble::MAX_WIDTH;

verus! {

#[derive(Debug, Clone, Copy, PartialEq, Eq, Structural)]
pub struct Layout {
    /// Logical sprite size (frame size x sprite scale).
    pub mascot_w: u32,
    pub mascot_h: u32,
    /// Fixed logical surface size (sprite + bubble zone).
    pub surf_w: u32,
    pub surf_h: u32,
    /// Sprite offset within the surface (layout quadrant).
    pub mascot_x: u32,
    pub mascot_y: u32,
    /// Bubble sits above the sprite (else below, when near the top edge).
    pub bubble_above: bool,
    /// Sprite hugs the surface's right edge (bubble grows leftward).
    pub anchor_right: bool,
}

impl Layout {
    /// The canvas is as wide as the widest bubble and the sprite, and as high
    /// as the sprite and the bubble zone; the sprite hugs the edges that its
    /// quadrant says.
    pub open spec fn wf(self) -> bool {
        &&& self.surf_w == crate::ints::max_of(MAX_WIDTH as int, self.mascot_w as int)
        &&& self.surf_h == self.mascot_h + crate::surface::bubble::zone()
        &&& self.mascot_x == if self.anchor_right {
            self.surf_w - self.mascot_w
        } else {
            0
        }
        &&& self.mascot_y == if self.bubble_above {
            self.surf_h - self.mascot_h
        } else {
            0
        }
    }

    /// The layout for a mascot whose top-left is at (mx, my) of its output:
    /// the bubble zone goes to the left of and above the sprite where there is
    /// room for it.
    pub open spec fn placed(self, mx: int, my: int) -> Layout {
        let above = my >= self.surf_h - self.mascot_h;
        let right = mx >= self.surf_w - self.mascot_w;
        Layout {
            bubble_above: above,
            anchor_right: right,
            mascot_x: if right {
                (self.surf_w - self.mascot_w) as u32
            } else {
                0
            },
            mascot_y: if above {
                (self.surf_h - self.mascot_h) as u32
            } else {
                0
            },
            ..self
        }
    }

    /// Where the sprite is drawn on the surface.
    pub open spec fn sprite(self) -> Rect {
        Rect { x: self.mascot_x as i32, y: self.mascot_y as i32, w: self.mascot_w, h: self.mascot_h }
    }

    /// The surface margins for a mascot at (mx, my) can be computed.
    pub open spec fn margins_fit(self, mx: int, my: int) -> bool {
        crate::surface::outputs::fits_i32(mx - self.mascot_x) && crate::surface::outputs::fits_i32(my - self.mascot_y)
    }

    /// The layout of a new surface: bubble above, sprite at the right.
    pub fn new(mascot_w: u32, mascot_h: u32) -> (layout: Self)
        requires
            mascot_h + crate::surface::bubble::zone() <= u32::MAX,
        ensures
            layout.wf(),
            layout.mascot_w == mascot_w,
            layout.mascot_h == mascot_h,
            layout.bubble_above,
            layout.anchor_right,
    {
        let surf_w: u32 = if MAX_WIDTH > mascot_w {
            MAX_WIDTH
        } else {
            mascot_w
        };
        let surf_h: u32 = mascot_h + zone_height();
        Layout {
            mascot_w,
            mascot_h,
            surf_w,
            surf_h,
            mascot_x: surf_w - mascot_w,
            mascot_y: surf_h - mascot_h,
            bubble_above: true,
            anchor_right: true,
        }
    }

    /// Pick the layout quadrant so the surface margins stay non-negative
    /// (the bubble flips below/right of the sprite near the top/left edges).
    pub fn relayout(&mut self, mx: i32, my: i32)
        requires
            old(self).wf(),
        ensures
            final(self).wf(),
            *final(self) == old(self).placed(mx as int, my as int),
    {
        self.bubble_above = my >= cast_i32(self.surf_h - self.mascot_h);
        self.anchor_right = mx >= cast_i32(self.surf_w - self.mascot_w);
        self.mascot_x = if self.anchor_right {
            self.surf_w - self.mascot_w
        } else {
            0
        };
        self.mascot_y = if self.bubble_above {
            self.surf_h - self.mascot_h
        } else {
            0
        };
    }

    /// Surface margins (top, left) for a mascot at (mx, my) of its output.
    pub fn margins(&self, mx: i32, my: i32) -> (m: (i32, i32))
        requires
            self.wf(),
            self.margins_fit(mx as int, my as int),
        ensures
            m.0 == my - self.mascot_y,
            m.1 == mx - self.mascot_x,
    {
        (my - cast_i32(self.mascot_y), mx - cast_i32(self.mascot_x))
    }

    pub fn sprite_rect(&self) -> (rect: Rect)
        requires
            self.wf(),
        ensures
            rect == self.sprite(),
    {
        Rect { x: cast_i32(self.mascot_x), y: cast_i32(self.mascot_y), w: self.mascot_w, h: self.mascot_h }
    }
}

/// On screen the surface margins are never negative, whatever the layout was
/// before: a mascot at non-negative coordinates gets a surface that is.
pub proof fn margins_stay_non_negative(layout: Layout, mx: int, my: int)
    requires
        layout.wf(),
        0 <= mx,
        0 <= my,
    ensures
        my - layout.placed(mx, my).mascot_y >= 0,
        mx - layout.placed(mx, my).mascot_x >= 0,
{
}

/// The sprite is always drawn inside its surface, and the zone that is left
/// free above or below it is high enough for the largest bubble.
pub proof fn sprite_stays_on_its_surface(layout: Layout)
    requires
        layout.wf(),
    ensures
        layout.mascot_x + layout.mascot_w <= layout.surf_w,
        layout.mascot_y + layout.mascot_h <= layout.surf_h,
        layout.bubble_above ==> layout.mascot_y == crate::surface::bubble::zone(),
        !layout.bubble_above ==> layout.surf_h - (layout.mascot_y + layout.mascot_h) == crate::surface::bubble::zone(),
{
}

/// The layout depends on the last position alone, not on how it was reached.
pub proof fn layout_forgets(layout: Layout, ax: int, ay: int, bx: int, by: int)
    requires
        layout.wf(),
    ensures
        layout.placed(ax, ay).placed(bx, by) == layout.placed(bx, by),
{
}

/// The bubble's zone is above the sprite exactly if there is room for it on the
/// output, and to the left of it likewise; and wherever the sprite sits on its
/// surface, margins and offset together are where the mascot is.
pub proof fn zones_go_where_there_is_room(layout: Layout, mx: i32, my: i32, m: (i32, i32))
    requires
        layout.wf(),
        call_ensures(Layout::margins, (&layout.placed(mx as int, my as int), mx, my), m),
    ensures
        ({
            let p = layout.placed(mx as int, my as int);
            &&& p.bubble_above <==> my >= 100
            &&& p.anchor_right <==> mx + layout.mascot_w >= layout.surf_w
            &&& p.bubble_above ==> p.mascot_y == 100
            &&& !p.bubble_above ==> p.mascot_y == 0
            &&& p.anchor_right ==> p.mascot_x + p.mascot_w == p.surf_w
            &&& !p.anchor_right ==> p.mascot_x == 0
            &&& p.mascot_w == layout.mascot_w && p.mascot_h == layout.mascot_h
            &&& p.surf_w == layout.surf_w && p.surf_h == layout.surf_h
            &&& m.0 + p.mascot_y == my
            &&& m.1 + p.mascot_x == mx
        }),
{
}

/// A surface is as wide as the widest bubble, or as the sprite where that is
/// wider, and higher than the sprite by the bubble's zone.
pub proof fn surfaces_have_room_for_a_bubble(mascot_w: u32, mascot_h: u32, layout: Layout)
    requires
        call_ensures(Layout::new, (mascot_w, mascot_h), layout),
    ensures
        layout.surf_w >= 280 && layout.surf_w >= mascot_w,
        layout.surf_w == 280 || layout.surf_w == mascot_w,
        layout.surf_h == mascot_h + 100,
        layout.mascot_x + mascot_w == layout.surf_w,
        layout.mascot_y == 100,
        layout.mascot_w == mascot_w,
        layout.mascot_h == mascot_h,
{
}

/// The sprite's rectangle is where it sits on the surface, in its own size.
pub proof fn sprite_rectangle_is_where_it_sits(layout: &Layout, rect: Rect)
    requires
        call_ensures(Layout::sprite_rect, (layout,), rect),
        layout.mascot_x <= i32::MAX,
        layout.mascot_y <= i32::MAX,
    ensures
        rect.x == layout.mascot_x,
        rect.y == layout.mascot_y,
        rect.w == layout.mascot_w,
        rect.h == layout.mascot_h,
{
}

} // verus!
