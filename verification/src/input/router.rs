//! Pure pointer routing: hit-testing against the sprite/bubble rects,
//! left-click routing (bubble = immediate click target, sprite = drag FSM),
//! input-region composition, and the cursor-shape decision.

use vstd::prelude::*;

use crate::ints::cast_i32;

verus! {

#[derive(Debug, Clone, Copy, PartialEq, Eq, Structural)]
pub struct Rect {
    pub x: i32,
    pub y: i32,
    pub w: u32,
    pub h: u32,
}

impl Rect {
    /// The far edges, as far as a test of `p` looks at them, can be expressed
    /// in surface coordinates.
    pub open spec fn testable(self, p: (i32, i32)) -> bool {
        self.x * 256 <= p.0 && self.y * 256 <= p.1 ==> {
            &&& i32::MIN <= self.x + crate::ints::wrap_i32(self.w) <= i32::MAX
            &&& p.0 < (self.x + crate::ints::wrap_i32(self.w)) * 256 ==> i32::MIN <= self.y + crate::ints::wrap_i32(
                self.h,
            ) <= i32::MAX
        }
    }

    /// Whether a point, in 1/256 pixels, lies in the rectangle: the origin's
    /// edges do, the far edges do not.
    pub open spec fn holds(self, p: (i32, i32)) -> bool {
        &&& self.x * 256 <= p.0 < (self.x + crate::ints::wrap_i32(self.w)) * 256
        &&& self.y * 256 <= p.1 < (self.y + crate::ints::wrap_i32(self.h)) * 256
    }

    /// Whether a point, in 1/256 pixels, lies in the rectangle.
    pub fn contains(&self, p: (i32, i32)) -> (inside: bool)
        requires
            self.testable(p),
        ensures
            inside == self.holds(p),
    {
        let px: i64 = p.0 as i64;
        let py: i64 = p.1 as i64;
        px >= self.x as i64 * 256 && py >= self.y as i64 * 256 && px < (self.x + cast_i32(self.w)) as i64 * 256 && py
            < (self.y + cast_i32(self.h)) as i64 * 256
    }
}

#[derive(Debug, Clone, Copy, PartialEq, Eq, Structural)]
pub enum Hit {
    Bubble,
    Sprite,
    Outside,
}

/// What a point hits: the bubble, drawn over the sprite, wins overlaps.
pub open spec fn hit_of(pos: (i32, i32), sprite: Rect, bubble: Option<Rect>) -> Hit {
    if bubble matches Some(b) && b.holds(pos) {
        Hit::Bubble
    } else if sprite.holds(pos) {
        Hit::Sprite
    } else {
        Hit::Outside
    }
}

/// The bubble is drawn over the sprite, so it wins overlaps.
pub fn hit_test(pos: (i32, i32), sprite: Rect, bubble: Option<Rect>) -> (hit: Hit)
    requires
        bubble matches Some(b) ==> b.testable(pos),
        sprite.testable(pos),
    ensures
        hit == hit_of(pos, sprite, bubble),
{
    if let Some(b) = bubble {
        if b.contains(pos) {
            return Hit::Bubble;
        }
    }
    if sprite.contains(pos) {
        Hit::Sprite
    } else {
        Hit::Outside
    }
}

/// The rectangles that take input: the sprite's, and the bubble's while shown.
pub open spec fn input_of(sprite: Rect, bubble: Option<Rect>) -> Seq<Rect> {
    match bubble {
        Some(b) => seq![sprite, b],
        None => seq![sprite],
    }
}

/// The rects the surface accepts input on: always the sprite; the bubble box
/// only while shown (tail/gap stay click-through).
pub fn input_rects(sprite: Rect, bubble: Option<Rect>) -> (rects: Vec<Rect>)
    ensures
        rects@ == input_of(sprite, bubble),
{
    let mut rects: Vec<Rect> = Vec::new();
    rects.push(sprite);
    if let Some(b) = bubble {
        rects.push(b);
    }
    assert(rects@ =~= input_of(sprite, bubble));
    rects
}

/// Input is accepted exactly where something is hit.
pub proof fn input_region_is_what_can_be_hit(pos: (i32, i32), sprite: Rect, bubble: Option<Rect>)
    ensures
        hit_of(pos, sprite, bubble) != Hit::Outside <==> exists|i: int|
            0 <= i < input_of(sprite, bubble).len() && (#[trigger] input_of(sprite, bubble)[i]).holds(pos),
{
    let rects = input_of(sprite, bubble);
    assert(rects[0] == sprite);
    if let Some(b) = bubble {
        assert(rects[1] == b);
    }
}

/// Left-button click routing. Sprite presses go through the drag FSM with
/// its click-vs-drag threshold; bubble presses arm an immediate
/// click-on-release (no threshold).
#[derive(Debug, Clone, Copy, PartialEq, Eq, Structural)]
pub struct Clicks {
    pub bubble_armed: bool,
}

impl Default for Clicks {
    fn default() -> (clicks: Self)
        ensures
            clicks == (Clicks { bubble_armed: false }),
    {
        Clicks { bubble_armed: false }
    }
}

impl Clicks {
    /// Route a left press. Returns true when the press starts a drag grab
    /// (sprite hit).
    pub fn press(&mut self, hit: Hit) -> (grabs: bool)
        ensures
            final(self).bubble_armed == (hit == Hit::Bubble),
            grabs == (hit == Hit::Sprite),
    {
        self.bubble_armed = hit == Hit::Bubble;
        hit == Hit::Sprite
    }

    /// Route a left release. Returns true when a bubble click completed
    /// (armed press and released inside the bubble).
    pub fn release(&mut self, hit: Hit) -> (fired: bool)
        ensures
            !final(self).bubble_armed,
            fired == (old(self).bubble_armed && hit == Hit::Bubble),
    {
        let fired: bool = self.bubble_armed && hit == Hit::Bubble;
        self.bubble_armed = false;
        fired
    }

    pub fn cancel(&mut self)
        ensures
            !final(self).bubble_armed,
    {
        self.bubble_armed = false;
    }
}

/// Cursor shape for the current hover/drag state.
#[derive(Debug, Clone, Copy, PartialEq, Eq, Structural)]
pub enum Cursor {
    Default,
    /// Hand over the clickable bubble.
    Pointer,
    /// Open hand over the draggable sprite.
    Grab,
    /// Closed hand during an active drag.
    Grabbing,
}

impl Default for Cursor {
    fn default() -> (cursor: Self)
        ensures
            cursor == Cursor::Default,
    {
        Cursor::Default
    }
}

/// The cursor shape over what is hit; a drag overrides it.
pub open spec fn cursor_of(dragging: bool, hit: Hit) -> Cursor {
    if dragging {
        Cursor::Grabbing
    } else {
        match hit {
            Hit::Bubble => Cursor::Pointer,
            Hit::Sprite => Cursor::Grab,
            Hit::Outside => Cursor::Default,
        }
    }
}

pub fn cursor_for(dragging: bool, hit: Hit) -> (cursor: Cursor)
    ensures
        cursor == cursor_of(dragging, hit),
{
    if dragging {
        return Cursor::Grabbing;
    }
    match hit {
        Hit::Bubble => Cursor::Pointer,
        Hit::Sprite => Cursor::Grab,
        Hit::Outside => Cursor::Default,
    }
}

/// Hover-jump edge action.
#[derive(Debug, Clone, Copy, PartialEq, Eq, Structural)]
pub enum HoverChange {
    /// Started hovering the sprite: play the jumping gesture.
    Jump,
    /// Stopped hovering: return to the base state.
    ReturnToBase,
}

/// The edge between two hover states, if there is one.
pub open spec fn hover_edge(was: bool, is: bool) -> Option<HoverChange> {
    if was == is {
        None
    } else if is {
        Some(HoverChange::Jump)
    } else {
        Some(HoverChange::ReturnToBase)
    }
}

/// Edge-detect the hover-jump. A jump-hover is "pointer over the sprite, in
/// the docked surface, not dragging, and the pet has jump art". `hovering`
/// carries the current state and is updated in place; returns the transition
/// action only when it flips.
pub fn hover_transition(
    over_sprite: bool,
    docked: bool,
    dragging: bool,
    has_jump_art: bool,
    hovering: &mut bool,
) -> (change: Option<HoverChange>)
    ensures
        *final(hovering) == (over_sprite && docked && !dragging && has_jump_art),
        change == hover_edge(*old(hovering), *final(hovering)),
{
    let want: bool = over_sprite && docked && !dragging && has_jump_art;
    if want == *hovering {
        return None;
    }
    *hovering = want;
    if want {
        Some(HoverChange::Jump)
    } else {
        Some(HoverChange::ReturnToBase)
    }
}

/// A rectangle holds the points from its corner on, for its width and height in
/// whole pixels; the far edges are not part of it.
pub proof fn rectangles_end_before_their_far_edges(rect: &Rect, p: (i32, i32), inside: bool)
    requires
        call_ensures(Rect::contains, (rect, p), inside),
        rect.w <= i32::MAX,
        rect.h <= i32::MAX,
    ensures
        inside <==> {
            &&& 0 <= p.0 - 256 * rect.x < 256 * rect.w
            &&& 0 <= p.1 - 256 * rect.y < 256 * rect.h
        },
{
}

/// The bubble is hit wherever it is, the sprite where the bubble is not, and
/// nothing elsewhere.
pub proof fn bubble_hides_the_sprite(
    pos: (i32, i32),
    sprite: Rect,
    bubble: Rect,
    in_sprite: bool,
    in_bubble: bool,
    hit: Hit,
    bare: Hit,
)
    requires
        call_ensures(Rect::contains, (&sprite, pos), in_sprite),
        call_ensures(Rect::contains, (&bubble, pos), in_bubble),
        call_ensures(hit_test, (pos, sprite, Some(bubble)), hit),
        call_ensures(hit_test, (pos, sprite, None), bare),
    ensures
        hit == Hit::Bubble <==> in_bubble,
        hit == Hit::Sprite <==> in_sprite && !in_bubble,
        bare == Hit::Sprite <==> in_sprite,
        bare != Hit::Bubble,
{
}

/// Input is taken by the sprite always, by the bubble while it is up, and by
/// nothing else.
pub proof fn input_is_sprite_and_bubble(sprite: Rect, bubble: Rect, with: Vec<Rect>, without: Vec<Rect>)
    requires
        call_ensures(input_rects, (sprite, Some(bubble)), with),
        call_ensures(input_rects, (sprite, None), without),
    ensures
        with@.len() == 2,
        with@[0] == sprite,
        with@[1] == bubble,
        without@.len() == 1,
        without@[0] == sprite,
{
}

/// The cursor tells what a press would do: a hand for what can be clicked, an
/// open one for what can be dragged, a closed one only while dragging.
pub proof fn cursor_tells_what_a_press_does(dragging: bool, hit: Hit, cursor: Cursor)
    requires
        call_ensures(cursor_for, (dragging, hit), cursor),
    ensures
        cursor == Cursor::Grabbing <==> dragging,
        !dragging && hit == Hit::Bubble ==> cursor == Cursor::Pointer,
        !dragging && hit == Hit::Sprite ==> cursor == Cursor::Grab,
        !dragging && hit == Hit::Outside ==> cursor == Cursor::Default,
{
}

/// A hover that begins is a jump, one that ends a return, and one that goes on
/// is nothing; the last of two opposite edges undoes the first.
pub proof fn hover_edges_alternate(was: bool, now: bool)
    ensures
        hover_edge(was, now) == Some(HoverChange::Jump) <==> !was && now,
        hover_edge(was, now) == Some(HoverChange::ReturnToBase) <==> was && !now,
        hover_edge(was, now) is None <==> was == now,
{
}

} // verus!
