//! Per-output mascot surfaces. A wlr layer surface is bound to one output at
//! creation and cannot span or move between outputs, so "any monitor" means
//! one surface per output, all managed here: the pet is drawn on the surface
//! of the *active* output (the one whose rect contains its global position);
//! the rest stay blank and click-through. Outputs and surfaces go by their
//! protocol ids.

use vstd::prelude::*;

use crate::input::router::input_rects;
use crate::input::router::Rect;
use crate::surface::layout::Layout;
use crate::surface::visibility::Visibility;

verus! {

/// One mascot layer surface, bound to `output` for its whole life.
#[derive(Debug, Clone, Copy, PartialEq, Eq, Structural)]
pub struct OutputSurface {
    pub output: u32,
    pub surface: u32,
    pub configured: bool,
    /// wl_output integer buffer scale for this surface's output.
    pub scale: i32,
}

/// A surface to map again, and the margins (top, left) to ask for.
#[derive(Debug, Clone, Copy, PartialEq, Eq, Structural)]
pub struct Remap {
    pub output: u32,
    pub top: i32,
    pub left: i32,
}

/// All mascot surfaces (one per output) plus the shared canvas geometry.
/// Which surface draws the pet is the app's call; the set only manages
/// lifecycles and per-surface protocol state.
#[derive(Debug)]
pub struct SurfaceSet {
    pub surfaces: Vec<OutputSurface>,
    pub layout: Layout,
    /// Integer upscale applied to sprite pixels (independent of HiDPI).
    pub sprite_scale: u32,
    /// Set-wide desired visibility; per-surface mapping state is `configured`.
    pub visibility: Visibility,
    /// Bubble box (logical surface coords) while shown: click target and
    /// input-region member. Meaningful on the active surface only.
    pub bubble_rect: Option<Rect>,
}

/// No output has two surfaces.
pub open spec fn one_per_output(surfaces: Seq<OutputSurface>) -> bool {
    forall|i: int, j: int| #![trigger surfaces[i], surfaces[j]]
        0 <= i < j < surfaces.len() ==> surfaces[i].output != surfaces[j].output
}

/// The first surface that is bound to the output stands at `i`.
pub open spec fn first_for(surfaces: Seq<OutputSurface>, output: u32, i: int) -> bool {
    &&& 0 <= i < surfaces.len()
    &&& surfaces[i].output == output
    &&& forall|k: int| 0 <= k < i ==> (#[trigger] surfaces[k]).output != output
}

/// Some surface is bound to the output.
pub open spec fn has_output(surfaces: Seq<OutputSurface>, output: u32) -> bool {
    exists|i: int| 0 <= i < surfaces.len() && (#[trigger] surfaces[i]).output == output
}

/// The surfaces that are not bound to the output, in order.
pub open spec fn without(surfaces: Seq<OutputSurface>, output: u32) -> Seq<OutputSurface>
    decreases surfaces.len(),
{
    if surfaces.len() == 0 {
        surfaces
    } else if surfaces.last().output == output {
        without(surfaces.drop_last(), output)
    } else {
        without(surfaces.drop_last(), output).push(surfaces.last())
    }
}

/// What mapping the unmapped surfaces again asks for: the given margins for
/// the active output's, none for the others.
pub open spec fn remaps(surfaces: Seq<OutputSurface>, active: Option<u32>, top: int, left: int) -> Seq<Remap>
    decreases surfaces.len(),
{
    if surfaces.len() == 0 {
        Seq::empty()
    } else {
        let before = remaps(surfaces.drop_last(), active, top, left);
        let os = surfaces.last();
        if os.configured {
            before
        } else if active == Some(os.output) {
            before.push(Remap { output: os.output, top: top as i32, left: left as i32 })
        } else {
            before.push(Remap { output: os.output, top: 0, left: 0 })
        }
    }
}

impl SurfaceSet {
    pub open spec fn wf(&self) -> bool {
        self.layout.wf() && one_per_output(self.surfaces@)
    }

    /// Nothing but the surfaces differs.
    pub open spec fn same_rest(&self, other: &SurfaceSet) -> bool {
        &&& self.layout == other.layout
        &&& self.sprite_scale == other.sprite_scale
        &&& self.visibility == other.visibility
        &&& self.bubble_rect == other.bubble_rect
    }

    pub fn new(mascot_w: u32, mascot_h: u32, sprite_scale: u32, visible: bool) -> (set: Self)
        requires
            mascot_h + crate::surface::bubble::zone() <= u32::MAX,
        ensures
            set.wf(),
            set.surfaces@.len() == 0,
            set.layout.mascot_w == mascot_w,
            set.layout.mascot_h == mascot_h,
            set.layout.bubble_above,
            set.layout.anchor_right,
            set.sprite_scale == sprite_scale,
            set.visibility == if visible {
                Visibility::Remapping
            } else {
                Visibility::Hidden
            },
            set.bubble_rect is None,
    {
        SurfaceSet {
            surfaces: Vec::new(),
            layout: Layout::new(mascot_w, mascot_h),
            sprite_scale,
            visibility: if visible {
                Visibility::Remapping
            } else {
                Visibility::Hidden
            },
            bubble_rect: None,
        }
    }

    /// Add the layer surface for `output` (no-op if it already has one). It
    /// starts unconfigured, at scale 1. Returns whether it was added.
    pub fn add_for_output(&mut self, output: u32, surface: u32) -> (added: bool)
        requires
            old(self).wf(),
        ensures
            final(self).wf(),
            final(self).same_rest(old(self)),
            added == !has_output(old(self).surfaces@, output),
            final(self).surfaces@ == if added {
                old(self).surfaces@.push(OutputSurface { output, surface, configured: false, scale: 1 })
            } else {
                old(self).surfaces@
            },
    {
        if self.by_output(output).is_some() {
            return false;
        }
        self.surfaces.push(OutputSurface { output, surface, configured: false, scale: 1 });
        true
    }

    /// Drop the surface bound to `output`. Returns whether one existed.
    pub fn remove_output(&mut self, output: u32) -> (existed: bool)
        requires
            old(self).wf(),
        ensures
            final(self).wf(),
            final(self).same_rest(old(self)),
            existed == has_output(old(self).surfaces@, output),
            final(self).surfaces@ == without(old(self).surfaces@, output),
            !has_output(final(self).surfaces@, output),
    {
        let ghost before = self.surfaces@;
        let mut kept: Vec<OutputSurface> = Vec::new();
        let mut existed: bool = false;
        let mut i: usize = 0;
        assert(before.take(0) =~= Seq::<OutputSurface>::empty());
        while i < self.surfaces.len()
            invariant
                i <= self.surfaces@.len(),
                before == self.surfaces@,
                *self == *old(self),
                kept@ == without(before.take(i as int), output),
                existed == has_output(before.take(i as int), output),
            decreases self.surfaces@.len() - i,
        {
            let os: OutputSurface = self.surfaces[i];
            let ghost head = before.take(i as int);
            let ghost next = before.take(i + 1);
            assert(next.drop_last() =~= head);
            assert(next.last() == os);
            if os.output == output {
                existed = true;
                assert(next[i as int].output == output);
            } else {
                kept.push(os);
                assert(has_output(next, output) == has_output(head, output)) by {
                    if has_output(next, output) {
                        let k = choose|k: int| 0 <= k < next.len() && (#[trigger] next[k]).output == output;
                        assert(head[k] == next[k]);
                    }
                    if has_output(head, output) {
                        let k = choose|k: int| 0 <= k < head.len() && (#[trigger] head[k]).output == output;
                        assert(head[k] == next[k]);
                    }
                }
            }
            i += 1;
        }
        assert(before.take(i as int) =~= before);
        proof {
            lemma_without(before, output);
        }
        self.surfaces = kept;
        existed
    }

    pub fn by_output(&self, output: u32) -> (found: Option<&OutputSurface>)
        ensures
            match found {
                Some(os) => exists|i: int| #[trigger]
                    first_for(self.surfaces@, output, i) && *os == self.surfaces@[i],
                None => !has_output(self.surfaces@, output),
            },
    {
        let mut i: usize = 0;
        while i < self.surfaces.len()
            invariant
                i <= self.surfaces@.len(),
                forall|k: int| 0 <= k < i ==> (#[trigger] self.surfaces@[k]).output != output,
            decreases self.surfaces@.len() - i,
        {
            if self.surfaces[i].output == output {
                assert(first_for(self.surfaces@, output, i as int));
                return Some(&self.surfaces[i]);
            }
            i += 1;
        }
        None
    }

    /// Where the surface of that id stands.
    pub fn by_surface(&self, surface: u32) -> (at: Option<usize>)
        ensures
            match at {
                Some(i) => {
                    &&& i < self.surfaces@.len()
                    &&& self.surfaces@[i as int].surface == surface
                    &&& forall|k: int| 0 <= k < i ==> (#[trigger] self.surfaces@[k]).surface != surface
                },
                None => forall|k: int|
                    0 <= k < self.surfaces@.len() ==> (#[trigger] self.surfaces@[k]).surface != surface,
            },
    {
        let mut i: usize = 0;
        while i < self.surfaces.len()
            invariant
                i <= self.surfaces@.len(),
                forall|k: int| 0 <= k < i ==> (#[trigger] self.surfaces@[k]).surface != surface,
            decreases self.surfaces@.len() - i,
        {
            if self.surfaces[i].surface == surface {
                return Some(i);
            }
            i += 1;
        }
        None
    }

    /// The compositor configured a surface. Returns its output, and whether it
    /// was the first configure since it was unmapped.
    pub fn configure(&mut self, surface: u32) -> (seen: Option<(u32, bool)>)
        requires
            old(self).wf(),
        ensures
            final(self).wf(),
            final(self).same_rest(old(self)),
            match seen {
                Some((output, first)) => exists|i: int|
                    {
                        &&& 0 <= i < old(self).surfaces@.len()
                        &&& (#[trigger] old(self).surfaces@[i]).surface == surface
                        &&& forall|k: int| 0 <= k < i ==> (#[trigger] old(self).surfaces@[k]).surface != surface
                        &&& output == old(self).surfaces@[i].output
                        &&& first == !old(self).surfaces@[i].configured
                        &&& final(self).surfaces@ == old(self).surfaces@.update(
                            i,
                            OutputSurface { configured: true, ..old(self).surfaces@[i] },
                        )
                    },
                None => {
                    &&& final(self).surfaces@ == old(self).surfaces@
                    &&& forall|k: int|
                        0 <= k < old(self).surfaces@.len() ==> (#[trigger] old(self).surfaces@[k]).surface != surface
                },
            },
    {
        match self.by_surface(surface) {
            None => None,
            Some(i) => {
                let os: OutputSurface = self.surfaces[i];
                self.surfaces.set(i, OutputSurface { configured: true, ..os });
                assert(old(self).surfaces@[i as int] == os);
                Some((os.output, !os.configured))
            },
        }
    }

    pub fn first_output(&self) -> (output: Option<u32>)
        ensures
            output == if self.surfaces@.len() > 0 {
                Some(self.surfaces@[0].output)
            } else {
                None
            },
    {
        if self.surfaces.len() > 0 {
            Some(self.surfaces[0].output)
        } else {
            None
        }
    }

    /// Current logical surface size (always the docked size - the pet moves
    /// via margins, it does not resize to drag).
    pub fn surface_size(&self) -> (size: (u32, u32))
        ensures
            size == (self.layout.surf_w, self.layout.surf_h),
    {
        (self.layout.surf_w, self.layout.surf_h)
    }

    /// Pick the layout quadrant so the surface margins stay non-negative.
    /// `(mx, my)` is the mascot's top-left local to the active output.
    pub fn relayout(&mut self, at: (i32, i32))
        requires
            old(self).wf(),
        ensures
            final(self).wf(),
            final(self).surfaces@ == old(self).surfaces@,
            final(self).layout == old(self).layout.placed(at.0 as int, at.1 as int),
            final(self).sprite_scale == old(self).sprite_scale,
            final(self).visibility == old(self).visibility,
            final(self).bubble_rect == old(self).bubble_rect,
    {
        self.layout.relayout(at.0, at.1);
    }

    pub fn sprite_rect(&self) -> (rect: Rect)
        requires
            self.wf(),
        ensures
            rect == self.layout.sprite(),
    {
        self.layout.sprite_rect()
    }

    /// Surface margins (top, left) of `output`'s surface for a mascot at the
    /// given output-local top-left; `None` where it has no surface.
    pub fn apply_margins(&self, output: u32, at: (i32, i32)) -> (margins: Option<(i32, i32)>)
        requires
            self.wf(),
            has_output(self.surfaces@, output) ==> self.layout.margins_fit(at.0 as int, at.1 as int),
        ensures
            match margins {
                Some((top, left)) => {
                    &&& has_output(self.surfaces@, output)
                    &&& top == at.1 - self.layout.mascot_y
                    &&& left == at.0 - self.layout.mascot_x
                },
                None => !has_output(self.surfaces@, output),
            },
    {
        if self.by_output(output).is_none() {
            return None;
        }
        Some(self.layout.margins(at.0, at.1))
    }

    /// Input region of `output`'s surface while it is the active one: sprite
    /// rect + the bubble box while shown.
    pub fn update_input_region(&self, output: u32) -> (rects: Option<Vec<Rect>>)
        requires
            self.wf(),
        ensures
            match rects {
                Some(r) => has_output(self.surfaces@, output) && r@ == crate::input::router::input_of(
                    self.layout.sprite(),
                    self.bubble_rect,
                ),
                None => !has_output(self.surfaces@, output),
            },
    {
        if self.by_output(output).is_none() {
            return None;
        }
        Some(input_rects(self.layout.sprite_rect(), self.bubble_rect))
    }

    /// Input region of `output`'s surface while it is inactive: fully
    /// click-through.
    pub fn clear_input_region(&self, output: u32) -> (rects: Option<Vec<Rect>>)
        ensures
            match rects {
                Some(r) => has_output(self.surfaces@, output) && r@.len() == 0,
                None => !has_output(self.surfaces@, output),
            },
    {
        if self.by_output(output).is_none() {
            return None;
        }
        Some(Vec::new())
    }

    /// Every surface is unmapped. Remapping requires a fresh initial commit +
    /// configure per surface.
    pub fn unmap_all(&mut self)
        requires
            old(self).wf(),
        ensures
            final(self).wf(),
            final(self).visibility == Visibility::Hidden,
            final(self).layout == old(self).layout,
            final(self).sprite_scale == old(self).sprite_scale,
            final(self).bubble_rect == old(self).bubble_rect,
            final(self).surfaces@ == old(self).surfaces@.map_values(
                |os: OutputSurface| OutputSurface { configured: false, ..os },
            ),
    {
        let ghost before = self.surfaces@;
        let mut i: usize = 0;
        while i < self.surfaces.len()
            invariant
                i <= self.surfaces@.len() == before.len(),
                self.same_rest(old(self)),
                forall|k: int|
                    0 <= k < i ==> #[trigger] self.surfaces@[k] == (OutputSurface { configured: false, ..before[k] }),
                forall|k: int| i <= k < before.len() ==> #[trigger] self.surfaces@[k] == before[k],
            decreases self.surfaces@.len() - i,
        {
            let os: OutputSurface = self.surfaces[i];
            self.surfaces.set(i, OutputSurface { configured: false, ..os });
            i += 1;
        }
        self.visibility = Visibility::Hidden;
        assert(self.surfaces@ =~= before.map_values(|os: OutputSurface| OutputSurface { configured: false, ..os }));
    }

    /// Which surfaces to map again: every unmapped one. Margins are asked for
    /// on the active output's surface only - the others never carry a buffer
    /// until they become active.
    pub fn request_remap_all(&self, active: Option<u32>, at: (i32, i32)) -> (asked: Vec<Remap>)
        requires
            self.wf(),
            forall|i: int|
                0 <= i < self.surfaces@.len() && !(#[trigger] self.surfaces@[i]).configured && active == Some(
                    self.surfaces@[i].output,
                ) ==> self.layout.margins_fit(at.0 as int, at.1 as int),
        ensures
            asked@ == remaps(
                self.surfaces@,
                active,
                at.1 - self.layout.mascot_y,
                at.0 - self.layout.mascot_x,
            ),
    {
        let mut asked: Vec<Remap> = Vec::new();
        let mut i: usize = 0;
        let ghost top = at.1 - self.layout.mascot_y;
        let ghost left = at.0 - self.layout.mascot_x;
        assert(self.surfaces@.take(0) =~= Seq::<OutputSurface>::empty());
        while i < self.surfaces.len()
            invariant
                i <= self.surfaces@.len(),
                self.wf(),
                top == at.1 - self.layout.mascot_y,
                left == at.0 - self.layout.mascot_x,
                forall|i: int|
                    0 <= i < self.surfaces@.len() && !(#[trigger] self.surfaces@[i]).configured && active == Some(
                        self.surfaces@[i].output,
                    ) ==> self.layout.margins_fit(at.0 as int, at.1 as int),
                asked@ == remaps(self.surfaces@.take(i as int), active, top, left),
            decreases self.surfaces@.len() - i,
        {
            let os: OutputSurface = self.surfaces[i];
            assert(self.surfaces@.take(i + 1).drop_last() =~= self.surfaces@.take(i as int));
            if !os.configured {
                let mine: bool = match active {
                    Some(a) => a == os.output,
                    None => false,
                };
                if mine {
                    let (top, left): (i32, i32) = self.layout.margins(at.0, at.1);
                    asked.push(Remap { output: os.output, top, left });
                } else {
                    asked.push(Remap { output: os.output, top: 0, left: 0 });
                }
            }
            i += 1;
        }
        assert(self.surfaces@.take(i as int) =~= self.surfaces@);
        asked
    }
}

proof fn lemma_without(surfaces: Seq<OutputSurface>, output: u32)
    requires
        one_per_output(surfaces),
    ensures
        one_per_output(without(surfaces, output)),
        !has_output(without(surfaces, output), output),
        forall|i: int|
            0 <= i < without(surfaces, output).len() ==> exists|j: int|
                0 <= j < surfaces.len() && surfaces[j] == #[trigger] without(surfaces, output)[i],
    decreases surfaces.len(),
{
    if surfaces.len() > 0 {
        let rest = surfaces.drop_last();
        let w = without(rest, output);
        let all = without(surfaces, output);
        assert(one_per_output(rest)) by {
            assert forall|i: int, j: int| #![trigger rest[i], rest[j]] 0 <= i < j < rest.len() implies rest[i].output
                != rest[j].output by {
                assert(surfaces[i] == rest[i] && surfaces[j] == rest[j]);
            }
        }
        lemma_without(rest, output);
        assert forall|i: int| 0 <= i < all.len() implies exists|j: int|
            0 <= j < surfaces.len() && surfaces[j] == #[trigger] all[i] by {
            if i < w.len() {
                assert(all[i] == w[i]);
                let j = choose|j: int| 0 <= j < rest.len() && rest[j] == w[i];
                assert(surfaces[j] == all[i]);
            } else {
                assert(surfaces[surfaces.len() - 1] == all[i]);
            }
        }
        if surfaces.last().output != output {
            assert forall|i: int, j: int| #![trigger all[i], all[j]] 0 <= i < j < all.len() implies all[i].output
                != all[j].output by {
                assert(all[i] == w[i]);
                if j < w.len() {
                    assert(all[j] == w[j]);
                } else {
                    let k = choose|k: int| 0 <= k < rest.len() && rest[k] == w[i];
                    assert(surfaces[k] == rest[k]);
                    assert(surfaces[surfaces.len() - 1] == all[j]);
                }
            }
            if has_output(all, output) {
                let k = choose|k: int| 0 <= k < all.len() && (#[trigger] all[k]).output == output;
                assert(w[k] == all[k]);
            }
        }
    }
}

/// Removing an output's surface and adding it again leaves one surface for it,
/// unconfigured, behind the others.
pub proof fn removed_output_can_return(surfaces: Seq<OutputSurface>, output: u32, surface: u32)
    requires
        one_per_output(surfaces),
    ensures
        ({
            let again = without(surfaces, output).push(
                OutputSurface { output, surface, configured: false, scale: 1 },
            );
            one_per_output(again) && has_output(again, output) && without(again, output) == without(surfaces, output)
        }),
{
    lemma_without(surfaces, output);
    let w = without(surfaces, output);
    let os = OutputSurface { output, surface, configured: false, scale: 1 };
    let again = w.push(os);
    assert(again[w.len() as int] == os);
    assert(again.drop_last() =~= w);
    lemma_without_absent(w, output);
}

proof fn lemma_without_absent(surfaces: Seq<OutputSurface>, output: u32)
    requires
        !has_output(surfaces, output),
    ensures
        without(surfaces, output) == surfaces,
    decreases surfaces.len(),
{
    if surfaces.len() > 0 {
        let rest = surfaces.drop_last();
        assert(!has_output(rest, output)) by {
            if has_output(rest, output) {
                let k = choose|k: int| 0 <= k < rest.len() && (#[trigger] rest[k]).output == output;
                assert(surfaces[k] == rest[k]);
            }
        }
        assert(surfaces[surfaces.len() - 1] == surfaces.last());
        lemma_without_absent(rest, output);
        assert(rest.push(surfaces.last()) =~= surfaces);
    }
}

/// Removing an output's surface leaves all the others, as they were and in
/// their order, and no surface of that output.
pub proof fn other_surfaces_stay(surfaces: Seq<OutputSurface>, output: u32, s: OutputSurface)
    ensures
        without(surfaces, output).contains(s) <==> surfaces.contains(s) && s.output != output,
        (forall|k: int| 0 <= k < surfaces.len() ==> (#[trigger] surfaces[k]).output != output) ==> without(
            surfaces,
            output,
        ) == surfaces,
        without(surfaces, output).len() <= surfaces.len(),
    decreases surfaces.len(),
{
    if surfaces.len() > 0 {
        let rest = surfaces.drop_last();
        let w = without(rest, output);
        let all = without(surfaces, output);
        other_surfaces_stay(rest, output, s);
        if all.contains(s) {
            let k = choose|k: int| 0 <= k < all.len() && all[k] == s;
            if k < w.len() {
                assert(w[k] == s);
                let j = choose|j: int| 0 <= j < rest.len() && rest[j] == s;
                assert(surfaces[j] == s);
            } else {
                assert(surfaces[surfaces.len() - 1] == s);
            }
        }
        if surfaces.contains(s) && s.output != output {
            let j = choose|j: int| 0 <= j < surfaces.len() && surfaces[j] == s;
            if j < rest.len() {
                assert(rest[j] == s);
                let k = choose|k: int| 0 <= k < w.len() && w[k] == s;
                assert(all[k] == s);
            } else {
                assert(all[all.len() - 1] == s);
            }
        }
        if forall|k: int| 0 <= k < surfaces.len() ==> (#[trigger] surfaces[k]).output != output {
            assert forall|k: int| 0 <= k < rest.len() implies (#[trigger] rest[k]).output != output by {
                assert(surfaces[k] == rest[k]);
            }
            assert(surfaces[surfaces.len() - 1].output != output);
            assert(all =~= surfaces);
        }
    }
}

/// Exactly the surfaces that are not mapped are mapped again: the active
/// output's with its margins, every other with none.
pub proof fn unmapped_surfaces_are_mapped_again(
    set: &SurfaceSet,
    active: Option<u32>,
    at: (i32, i32),
    asked: Vec<Remap>,
    output: u32,
)
    requires
        set.wf(),
        call_ensures(SurfaceSet::request_remap_all, (set, active, at), asked),
        set.layout.margins_fit(at.0 as int, at.1 as int),
    ensures
        (exists|k: int| 0 <= k < asked@.len() && (#[trigger] asked@[k]).output == output) <==> (exists|i: int|
            0 <= i < set.surfaces@.len() && (#[trigger] set.surfaces@[i]).output == output
                && !set.surfaces@[i].configured),
        forall|k: int|
            0 <= k < asked@.len() ==> {
                let r = #[trigger] asked@[k];
                &&& active == Some(r.output) ==> r.top + set.layout.mascot_y == at.1 && r.left + set.layout.mascot_x
                    == at.0
                &&& active != Some(r.output) ==> r.top == 0 && r.left == 0
            },
{
    lemma_remaps(set.surfaces@, active, at.1 - set.layout.mascot_y, at.0 - set.layout.mascot_x, output);
}

proof fn lemma_remaps(surfaces: Seq<OutputSurface>, active: Option<u32>, top: int, left: int, output: u32)
    requires
        i32::MIN <= top <= i32::MAX,
        i32::MIN <= left <= i32::MAX,
    ensures
        ({
            let asked = remaps(surfaces, active, top, left);
            &&& (exists|k: int| 0 <= k < asked.len() && (#[trigger] asked[k]).output == output) <==> (exists|i: int|
                0 <= i < surfaces.len() && (#[trigger] surfaces[i]).output == output && !surfaces[i].configured)
            &&& forall|k: int|
                0 <= k < asked.len() ==> {
                    let r = #[trigger] asked[k];
                    &&& active == Some(r.output) ==> r.top == top && r.left == left
                    &&& active != Some(r.output) ==> r.top == 0 && r.left == 0
                }
        }),
    decreases surfaces.len(),
{
    let asked = remaps(surfaces, active, top, left);
    if surfaces.len() > 0 {
        let rest = surfaces.drop_last();
        let before = remaps(rest, active, top, left);
        lemma_remaps(rest, active, top, left, output);
        let os = surfaces.last();
        assert(surfaces[surfaces.len() - 1] == os);
        if exists|k: int| 0 <= k < asked.len() && (#[trigger] asked[k]).output == output {
            let k = choose|k: int| 0 <= k < asked.len() && (#[trigger] asked[k]).output == output;
            if k < before.len() {
                assert(before[k] == asked[k]);
                let i = choose|i: int|
                    0 <= i < rest.len() && (#[trigger] rest[i]).output == output && !rest[i].configured;
                assert(surfaces[i] == rest[i]);
            }
        }
        if exists|i: int| 0 <= i < surfaces.len() && (#[trigger] surfaces[i]).output == output && !surfaces[i].configured {
            let i = choose|i: int|
                0 <= i < surfaces.len() && (#[trigger] surfaces[i]).output == output && !surfaces[i].configured;
            if i < rest.len() {
                assert(rest[i] == surfaces[i]);
                let k = choose|k: int| 0 <= k < before.len() && (#[trigger] before[k]).output == output;
                assert(asked[k] == before[k]);
            } else {
                assert(asked[asked.len() - 1].output == output);
            }
        }
        assert forall|k: int| 0 <= k < asked.len() implies {
            let r = #[trigger] asked[k];
            &&& active == Some(r.output) ==> r.top == top && r.left == left
            &&& active != Some(r.output) ==> r.top == 0 && r.left == 0
        } by {
            if k < before.len() {
                assert(before[k] == asked[k]);
            }
        }
    }
}

/// An output's surface is found by its output, and an output without one finds
/// none.
pub proof fn surfaces_are_found_by_their_output(set: &SurfaceSet, output: u32, found: Option<&OutputSurface>, i: int)
    requires
        set.wf(),
        call_ensures(SurfaceSet::by_output, (set, output), found),
        0 <= i < set.surfaces@.len(),
    ensures
        set.surfaces@[i].output == output ==> found is Some && *found->0 == set.surfaces@[i],
        found is Some ==> found->0.output == output,
{
    if let Some(os) = found {
        let j = choose|j: int| #[trigger] first_for(set.surfaces@, output, j) && *os == set.surfaces@[j];
        assert(set.surfaces@[j].output == output);
        if set.surfaces@[i].output == output && i != j {
            assert(set.surfaces@[i].output == set.surfaces@[j].output);
        }
    }
}

} // verus!
