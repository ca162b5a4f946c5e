//! Pure multi-output geometry. Outputs are logical rects in the compositor's
//! global coordinate space; these queries let the mascot place itself across
//! any monitor and recover gracefully when one goes away.

use vstd::prelude::*;

use crate::ints::div_i32;

verus! {

#[derive(Debug, PartialEq, Eq)]
pub struct OutputRect {
    pub name: String,
    pub x: i32,
    pub y: i32,
    pub w: i32,
    pub h: i32,
}

/// Whether a value can be a coordinate.
pub open spec fn fits_i32(v: int) -> bool {
    i32::MIN <= v <= i32::MAX
}

impl OutputRect {
    /// Whether the output's rectangle has the point: its origin edges are in
    /// it, its far edges are not.
    pub open spec fn holds(self, px: int, py: int) -> bool {
        self.x <= px < self.x + self.w && self.y <= py < self.y + self.h
    }

    /// The far edges, as far as a test of the point looks at them, are
    /// coordinates.
    pub open spec fn testable(self, px: int, py: int) -> bool {
        self.x <= px ==> {
            &&& fits_i32(self.x + self.w)
            &&& px < self.x + self.w && self.y <= py ==> fits_i32(self.y + self.h)
        }
    }

    /// The middle of the rectangle, in whole coordinates.
    pub open spec fn middle(self) -> (int, int) {
        (self.x + crate::ints::quot(self.w as int, 2), self.y + crate::ints::quot(self.h as int, 2))
    }

    /// Squared distance of a point from the middle.
    pub open spec fn distance_sq(self, px: int, py: int) -> int {
        let dx = px - self.middle().0;
        let dy = py - self.middle().1;
        dx * dx + dy * dy
    }

    /// The distance from a point can be computed in machine integers.
    pub open spec fn measurable(self, px: int, py: int) -> bool {
        &&& fits_i32(self.middle().0)
        &&& fits_i32(self.middle().1)
        &&& fits_i32(px - self.middle().0)
        &&& fits_i32(py - self.middle().1)
        &&& self.distance_sq(px, py) <= i64::MAX
    }

    pub fn contains(&self, px: i32, py: i32) -> (inside: bool)
        requires
            self.testable(px as int, py as int),
        ensures
            inside == self.holds(px as int, py as int),
    {
        px >= self.x && px < self.x + self.w && py >= self.y && py < self.y + self.h
    }

    pub fn center(&self) -> (c: (i32, i32))
        requires
            fits_i32(self.middle().0),
            fits_i32(self.middle().1),
        ensures
            c.0 == self.middle().0,
            c.1 == self.middle().1,
    {
        (self.x + div_i32(self.w, 2), self.y + div_i32(self.h, 2))
    }

    fn distance(&self, px: i32, py: i32) -> (d: i64)
        requires
            self.measurable(px as int, py as int),
        ensures
            d == self.distance_sq(px as int, py as int),
    {
        let (cx, cy): (i32, i32) = self.center();
        let dx: i64 = (px - cx) as i64;
        let dy: i64 = (py - cy) as i64;
        proof {
            assert(0 <= dx * dx <= 0x8000_0000 * 0x8000_0000) by (nonlinear_arith)
                requires
                    -0x8000_0000 <= dx <= 0x8000_0000,
            ;
            assert(0 <= dy * dy <= 0x8000_0000 * 0x8000_0000) by (nonlinear_arith)
                requires
                    -0x8000_0000 <= dy <= 0x8000_0000,
            ;
        }
        dx * dx + dy * dy
    }
}

/// `i` is the first output whose rectangle has the point.
pub open spec fn first_holding(outputs: Seq<OutputRect>, px: int, py: int, i: int) -> bool {
    &&& 0 <= i < outputs.len()
    &&& outputs[i].holds(px, py)
    &&& forall|k: int| 0 <= k < i ==> !(#[trigger] outputs[k]).holds(px, py)
}

/// No output has the point.
pub open spec fn off_screen(outputs: Seq<OutputRect>, px: int, py: int) -> bool {
    forall|k: int| 0 <= k < outputs.len() ==> !(#[trigger] outputs[k]).holds(px, py)
}

/// `i` is the output whose middle is nearest the point, the first of them
/// where several are.
pub open spec fn nearest(outputs: Seq<OutputRect>, px: int, py: int, i: int) -> bool {
    &&& 0 <= i < outputs.len()
    &&& forall|k: int|
        0 <= k < outputs.len() ==> outputs[i].distance_sq(px, py) <= (#[trigger] outputs[k]).distance_sq(px, py)
    &&& forall|k: int|
        0 <= k < i ==> outputs[i].distance_sq(px, py) < (#[trigger] outputs[k]).distance_sq(px, py)
}

/// `i` is the output that hosts the point: the first that has it, else the
/// nearest.
pub open spec fn hosts(outputs: Seq<OutputRect>, px: int, py: int, i: int) -> bool {
    first_holding(outputs, px, py, i) || off_screen(outputs, px, py) && nearest(outputs, px, py, i)
}

/// Every output up to the first that has the point can be tested for it.
pub open spec fn all_testable(outputs: Seq<OutputRect>, px: int, py: int) -> bool {
    forall|i: int|
        0 <= i < outputs.len() && (forall|k: int| 0 <= k < i ==> !(#[trigger] outputs[k]).holds(px, py))
            ==> (#[trigger] outputs[i]).testable(px, py)
}

/// Every output's distance can be computed.
pub open spec fn all_measurable(outputs: Seq<OutputRect>, px: int, py: int) -> bool {
    forall|i: int| 0 <= i < outputs.len() ==> (#[trigger] outputs[i]).measurable(px, py)
}

fn index_at(outputs: &[OutputRect], px: i32, py: i32) -> (at: Option<usize>)
    requires
        all_testable(outputs@, px as int, py as int),
    ensures
        match at {
            Some(i) => first_holding(outputs@, px as int, py as int, i as int),
            None => off_screen(outputs@, px as int, py as int),
        },
{
    let mut i: usize = 0;
    while i < outputs.len()
        invariant
            i <= outputs@.len(),
            all_testable(outputs@, px as int, py as int),
            forall|k: int| 0 <= k < i ==> !(#[trigger] outputs@[k]).holds(px as int, py as int),
        decreases outputs@.len() - i,
    {
        if outputs[i].contains(px, py) {
            return Some(i);
        }
        i += 1;
    }
    None
}

fn nearest_index(outputs: &[OutputRect], px: i32, py: i32) -> (at: Option<usize>)
    requires
        all_measurable(outputs@, px as int, py as int),
    ensures
        match at {
            Some(i) => nearest(outputs@, px as int, py as int, i as int),
            None => outputs@.len() == 0,
        },
{
    if outputs.len() == 0 {
        return None;
    }
    let mut best: usize = 0;
    let mut least: i64 = outputs[0].distance(px, py);
    let mut i: usize = 1;
    while i < outputs.len()
        invariant
            best < i <= outputs@.len(),
            all_measurable(outputs@, px as int, py as int),
            least == outputs@[best as int].distance_sq(px as int, py as int),
            forall|k: int|
                0 <= k < i ==> least <= (#[trigger] outputs@[k]).distance_sq(px as int, py as int),
            forall|k: int|
                0 <= k < best ==> least < (#[trigger] outputs@[k]).distance_sq(px as int, py as int),
        decreases outputs@.len() - i,
    {
        let d: i64 = outputs[i].distance(px, py);
        if d < least {
            best = i;
            least = d;
        }
        i += 1;
    }
    Some(best)
}

/// The output whose rect contains the point, if any.
pub fn output_at<'a>(outputs: &'a [OutputRect], px: i32, py: i32) -> (found: Option<&'a OutputRect>)
    requires
        all_testable(outputs@, px as int, py as int),
    ensures
        match found {
            Some(o) => exists|i: int| #[trigger]
                first_holding(outputs@, px as int, py as int, i) && *o == outputs@[i],
            None => off_screen(outputs@, px as int, py as int),
        },
{
    match index_at(outputs, px, py) {
        Some(i) => Some(&outputs[i]),
        None => None,
    }
}

/// The output whose centre is nearest the point. The fallback when no output
/// contains it - e.g. the pet's monitor was unplugged and its global position
/// is now off every screen, so it slides to the closest remaining one.
pub fn nearest_output<'a>(outputs: &'a [OutputRect], px: i32, py: i32) -> (found: Option<&'a OutputRect>)
    requires
        all_measurable(outputs@, px as int, py as int),
    ensures
        match found {
            Some(o) => exists|i: int| #[trigger] nearest(outputs@, px as int, py as int, i) && *o == outputs@[i],
            None => outputs@.len() == 0,
        },
{
    match nearest_index(outputs, px, py) {
        Some(i) => Some(&outputs[i]),
        None => None,
    }
}

/// Where a `size` long side starting at `at` goes to lie within a stretch of
/// `room` from `origin`: as near as possible, at the origin where it is too
/// long.
pub open spec fn pulled_in(at: int, origin: int, room: int, size: int) -> int {
    crate::ints::clamped(at, origin, crate::ints::max_of(origin + room - size, origin))
}

/// Clamp a mascot's global top-left so a `w`x`h` sprite stays fully inside
/// `rect`. Degenerate outputs (smaller than the sprite) pin to the origin.
pub fn clamp_into(rect: &OutputRect, x: i32, y: i32, w: i32, h: i32) -> (to: (i32, i32))
    requires
        fits_i32(rect.x + rect.w),
        fits_i32(rect.y + rect.h),
        fits_i32(rect.x + rect.w - w),
        fits_i32(rect.y + rect.h - h),
    ensures
        to.0 == pulled_in(x as int, rect.x as int, rect.w as int, w as int),
        to.1 == pulled_in(y as int, rect.y as int, rect.h as int, h as int),
{
    let mut max_x: i32 = rect.x + rect.w - w;
    if max_x < rect.x {
        max_x = rect.x;
    }
    let mut max_y: i32 = rect.y + rect.h - h;
    if max_y < rect.y {
        max_y = rect.y;
    }
    let cx: i32 = if x < rect.x {
        rect.x
    } else if x > max_x {
        max_x
    } else {
        x
    };
    let cy: i32 = if y < rect.y {
        rect.y
    } else if y > max_y {
        max_y
    } else {
        y
    };
    (cx, cy)
}

/// A side that fits is fully inside afterwards, one that was inside stays
/// where it was, one that does not fit starts at the origin, and doing it
/// twice changes nothing more.
pub proof fn clamping_keeps_the_sprite_inside(at: int, origin: int, room: int, size: int)
    requires
        0 <= size,
    ensures
        size <= room ==> origin <= pulled_in(at, origin, room, size) && pulled_in(at, origin, room, size) + size
            <= origin + room,
        origin <= at && at + size <= origin + room ==> pulled_in(at, origin, room, size) == at,
        size > room ==> pulled_in(at, origin, room, size) == origin,
        pulled_in(pulled_in(at, origin, room, size), origin, room, size) == pulled_in(at, origin, room, size),
{
}

/// Resolve a global point to the output that should host the pet and the
/// output-local top-left within it: the containing output, else the nearest.
/// This is the bridge the surface layer uses - persist/drag in global coords,
/// render in per-output local margins.
pub fn resolve<'a>(outputs: &'a [OutputRect], gx: i32, gy: i32) -> (found: Option<(&'a OutputRect, i32, i32)>)
    requires
        all_testable(outputs@, gx as int, gy as int),
        off_screen(outputs@, gx as int, gy as int) ==> all_measurable(outputs@, gx as int, gy as int),
        forall|i: int| #[trigger]
            hosts(outputs@, gx as int, gy as int, i) ==> fits_i32(gx - outputs@[i].x) && fits_i32(gy - outputs@[i].y),
    ensures
        match found {
            Some((o, lx, ly)) => {
                &&& exists|i: int| #[trigger] hosts(outputs@, gx as int, gy as int, i) && *o == outputs@[i]
                &&& lx == gx - o.x
                &&& ly == gy - o.y
            },
            None => outputs@.len() == 0,
        },
{
    let at: Option<usize> = match index_at(outputs, gx, gy) {
        Some(i) => Some(i),
        None => nearest_index(outputs, gx, gy),
    };
    match at {
        Some(i) => {
            assert(hosts(outputs@, gx as int, gy as int, i as int));
            let o: &OutputRect = &outputs[i];
            Some((o, gx - o.x, gy - o.y))
        },
        None => None,
    }
}

/// One output hosts a point, and never two; local coordinates of a point on
/// screen lie in the host's own rectangle.
pub proof fn host_is_unique(outputs: Seq<OutputRect>, px: int, py: int, i: int, j: int)
    requires
        hosts(outputs, px, py, i),
        hosts(outputs, px, py, j),
    ensures
        i == j,
        !off_screen(outputs, px, py) ==> 0 <= px - outputs[i].x < outputs[i].w && 0 <= py - outputs[i].y < outputs[i].h,
{
    if i < j {
        assert(!outputs[i].holds(px, py) || !first_holding(outputs, px, py, j));
    }
    if j < i {
        assert(!outputs[j].holds(px, py) || !first_holding(outputs, px, py, i));
    }
}

/// A video mode of an output.
#[derive(Debug, Clone, Copy, PartialEq, Eq, Structural)]
pub struct Mode {
    pub current: bool,
    pub w: i32,
    pub h: i32,
}

/// `i` is the first current mode.
pub open spec fn first_current(modes: Seq<Mode>, i: int) -> bool {
    &&& 0 <= i < modes.len()
    &&& modes[i].current
    &&& forall|k: int| 0 <= k < i ==> !(#[trigger] modes[k]).current
}

/// No mode is current.
pub open spec fn none_current(modes: Seq<Mode>) -> bool {
    forall|k: int| 0 <= k < modes.len() ==> !(#[trigger] modes[k]).current
}

/// Logical size of an output, falling back to mode/scale when the compositor
/// does not send xdg-output logical geometry.
pub fn logical_size(logical: Option<(i32, i32)>, scale_factor: i32, modes: &[Mode]) -> (size: Option<(i32, i32)>)
    ensures
        match logical {
            Some(l) => size == Some(l),
            None => match size {
                Some((w, h)) => exists|i: int| #[trigger]
                    first_current(modes@, i) && {
                        let scale = crate::ints::max_of(scale_factor as int, 1);
                        &&& w == crate::ints::quot(modes@[i].w as int, scale)
                        &&& h == crate::ints::quot(modes@[i].h as int, scale)
                    },
                None => none_current(modes@),
            },
        },
{
    if let Some(l) = logical {
        return Some(l);
    }
    let scale: i32 = if scale_factor > 1 {
        scale_factor
    } else {
        1
    };
    let mut i: usize = 0;
    while i < modes.len()
        invariant
            i <= modes@.len(),
            1 <= scale,
            scale == crate::ints::max_of(scale_factor as int, 1),
            logical is None,
            forall|k: int| 0 <= k < i ==> !(#[trigger] modes@[k]).current,
        decreases modes@.len() - i,
    {
        if modes[i].current {
            assert(first_current(modes@, i as int));
            return Some((div_i32(modes[i].w, scale), div_i32(modes[i].h, scale)));
        }
        i += 1;
    }
    None
}

/// A point is hosted by an output that has it, the first in the list where
/// several do; a point that none has, by one whose centre is no farther than
/// any other's. Its local coordinates count from that output's corner.
pub proof fn points_are_hosted_where_they_are(
    outputs: &[OutputRect],
    gx: i32,
    gy: i32,
    o: &OutputRect,
    lx: i32,
    ly: i32,
    k: int,
)
    requires
        call_ensures(resolve, (outputs, gx, gy), Some((o, lx, ly))),
        0 <= k < outputs@.len(),
        0 <= outputs@[k].w,
        0 <= outputs@[k].h,
        0 <= o.w,
        0 <= o.h,
    ensures
        exists|i: int| 0 <= i < outputs@.len() && #[trigger] outputs@[i] == *o,
        lx + o.x == gx,
        ly + o.y == gy,
        ({
            let p = outputs@[k];
            let has = p.x <= gx < p.x + p.w && p.y <= gy < p.y + p.h;
            let px = gx - (p.x + p.w / 2);
            let py = gy - (p.y + p.h / 2);
            let ox = gx - (o.x + o.w / 2);
            let oy = gy - (o.y + o.h / 2);
            &&& has ==> 0 <= lx < o.w && 0 <= ly < o.h
            &&& !(0 <= lx < o.w && 0 <= ly < o.h) ==> ox * ox + oy * oy <= px * px + py * py
        }),
{
    let (x, y) = (gx as int, gy as int);
    let i = choose|i: int| #[trigger] hosts(outputs@, x, y, i) && *o == outputs@[i];
    let p = outputs@[k];
    if p.holds(x, y) {
        assert(!off_screen(outputs@, x, y));
    }
}

/// The centre of an output is half its size from its corner.
pub proof fn centres_are_half_way(o: &OutputRect, c: (i32, i32))
    requires
        call_ensures(OutputRect::center, (o,), c),
        0 <= o.w,
        0 <= o.h,
    ensures
        0 <= o.w - 2 * (c.0 - o.x) <= 1,
        0 <= o.h - 2 * (c.1 - o.y) <= 1,
{
}

/// An output has the points from its corner on, its far edges excluded.
pub proof fn outputs_end_before_their_far_edges(o: &OutputRect, px: i32, py: i32, inside: bool)
    requires
        call_ensures(OutputRect::contains, (o, px, py), inside),
    ensures
        inside <==> 0 <= px - o.x < o.w && 0 <= py - o.y < o.h,
{
}

/// A sprite that is clamped into an output it fits in lies wholly on it, and
/// has not moved where it did already.
pub proof fn clamped_sprites_lie_on_their_output(rect: &OutputRect, x: i32, y: i32, w: i32, h: i32, to: (i32, i32))
    requires
        call_ensures(clamp_into, (rect, x, y, w, h), to),
        0 <= w <= rect.w,
        0 <= h <= rect.h,
    ensures
        rect.x <= to.0 && to.0 + w <= rect.x + rect.w,
        rect.y <= to.1 && to.1 + h <= rect.y + rect.h,
        rect.x <= x && x + w <= rect.x + rect.w ==> to.0 == x,
        rect.y <= y && y + h <= rect.y + rect.h ==> to.1 == y,
        x < rect.x ==> to.0 == rect.x,
        x + w > rect.x + rect.w ==> to.0 + w == rect.x + rect.w,
        y < rect.y ==> to.1 == rect.y,
        y + h > rect.y + rect.h ==> to.1 + h == rect.y + rect.h,
{
}

/// A logical size that the compositor tells is taken as it is; else it is the
/// current mode's, divided by the scale.
pub proof fn logical_sizes_are_told_or_derived(
    logical: Option<(i32, i32)>,
    scale_factor: i32,
    modes: &[Mode],
    size: Option<(i32, i32)>,
    i: int,
)
    requires
        call_ensures(logical_size, (logical, scale_factor, modes), size),
        0 <= i < modes@.len(),
        modes@[i].current,
        0 <= modes@[i].w,
        0 <= modes@[i].h,
        forall|k: int| 0 <= k < i ==> !(#[trigger] modes@[k]).current,
    ensures
        logical is Some ==> size == logical,
        logical is None ==> size is Some && {
            let s = if scale_factor >= 1 {
                scale_factor as int
            } else {
                1
            };
            &&& s * (size->0).0 <= modes@[i].w < s * (size->0).0 + s
            &&& s * (size->0).1 <= modes@[i].h < s * (size->0).1 + s
        },
{
    let s = crate::ints::max_of(scale_factor as int, 1);
    assert(first_current(modes@, i));
    if logical is None {
        assert(size is Some);
        let (w, h) = size->0;
        let j = choose|j: int| #[trigger]
            first_current(modes@, j) && w == crate::ints::quot(modes@[j].w as int, s) && h == crate::ints::quot(
                modes@[j].h as int,
                s,
            );
        assert(modes@[i].current);
        if i < j {
            assert(!modes@[i].current);
        }
        if j < i {
            assert(!modes@[j].current);
        }
        vstd::arithmetic::div_mod::lemma_fundamental_div_mod(modes@[i].w as int, s);
        vstd::arithmetic::div_mod::lemma_fundamental_div_mod(modes@[i].h as int, s);
    }
}

} // verus!
