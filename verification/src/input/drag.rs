//! Pure drag FSM: click-vs-drag threshold + coalesced delta-margins math.
//!
//! Motion events only stash the latest surface-local position; the surface
//! actually moves once per compositor frame callback via `Drag::take_pending`,
//! which measures the stash against the LAST APPLIED position and rebases.
//! Applying margins per motion event instead double-counts movement the
//! compositor has not committed yet (margin commits land asynchronously),
//! so the pet drifts away from the pointer.
//!
//! Pointer coordinates are Wayland's own fixed-point numbers: 1/256 pixel.

use vstd::prelude::*;

verus! {

/// Squared click-vs-drag threshold (4 px), in squared 1/256 pixels.
pub const THRESHOLD_SQ: i128 = 1_048_576;

#[derive(Debug, Clone, Copy, PartialEq, Eq)]
pub enum Drag {
    Idle,
    /// Button down, not yet past the threshold.
    Pressed { grab: (i32, i32), origin: (i32, i32), latest: (i32, i32) },
    Dragging {
        grab: (i32, i32),
        /// Last position handed out by `take_pending`.
        applied: (i32, i32),
        latest: (i32, i32),
    },
}

#[derive(Debug, Clone, Copy, PartialEq, Eq, Structural)]
pub enum Release {
    Click,
    /// Drag finished - persist the position.
    Dropped,
    Nothing,
}

/// A distance in pointer coordinates, rounded to whole pixels (halves away
/// from zero).
pub open spec fn round_px(d: int) -> int {
    if d >= 0 {
        (d + 128) / 256
    } else {
        -((-d + 128) / 256)
    }
}

/// Whether the pointer is more than four pixels away from the grab point.
pub open spec fn past_threshold(grab: (i32, i32), pointer: (i32, i32)) -> bool {
    let dx = pointer.0 - grab.0;
    let dy = pointer.1 - grab.1;
    dx * dx + dy * dy > THRESHOLD_SQ
}

fn round_to_px(to: i32, from: i32) -> (px: i32)
    ensures
        px == round_px(to - from),
{
    let d: i64 = to as i64 - from as i64;
    if d >= 0 {
        ((d + 128) / 256) as i32
    } else {
        (-((-d + 128) / 256)) as i32
    }
}

impl Drag {
    /// The state after a motion, and whether it started the drag.
    pub open spec fn moved(self, pointer: (i32, i32)) -> (Drag, bool) {
        match self {
            Drag::Idle => (self, false),
            Drag::Pressed { grab, origin, latest } => if past_threshold(grab, pointer) {
                (Drag::Dragging { grab, applied: origin, latest: pointer }, true)
            } else {
                (Drag::Pressed { grab, origin, latest: pointer }, false)
            },
            Drag::Dragging { grab, applied, latest } => (Drag::Dragging { grab, applied, latest: pointer }, false),
        }
    }

    /// Where the stashed motion takes the mascot: the last applied position
    /// plus the pointer's distance from the grab point.
    pub open spec fn target(self) -> Option<(int, int)> {
        match self {
            Drag::Dragging { grab, applied, latest } => Some(
                (applied.0 + round_px(latest.0 - grab.0), applied.1 + round_px(latest.1 - grab.1)),
            ),
            _ => None,
        }
    }

    /// The state once the stashed motion is applied.
    pub open spec fn rebased(self) -> Drag {
        match self {
            Drag::Dragging { grab, applied, latest } => Drag::Dragging {
                grab,
                applied: ((self.target()->0).0 as i32, (self.target()->0).1 as i32),
                latest: grab,
            },
            _ => self,
        }
    }

    /// The target can be expressed in surface coordinates.
    pub open spec fn target_fits(self) -> bool {
        self.target() matches Some((x, y)) ==> i32::MIN <= x <= i32::MAX && i32::MIN <= y <= i32::MAX
    }

    /// `position` is the mascot's current logical top-left on the output.
    pub fn press(&mut self, pointer: (i32, i32), position: (i32, i32))
        ensures
            *final(self) == (Drag::Pressed { grab: pointer, origin: position, latest: pointer }),
    {
        *self = Drag::Pressed { grab: pointer, origin: position, latest: pointer };
    }

    /// Stash the latest pointer position. Returns true exactly once, when
    /// the threshold is first crossed - the caller starts the frame-callback
    /// apply loop then.
    pub fn motion(&mut self, pointer: (i32, i32)) -> (started: bool)
        ensures
            (*final(self), started) == old(self).moved(pointer),
    {
        match *self {
            Drag::Idle => false,
            Drag::Pressed { grab, origin, latest: _ } => {
                let dx: i128 = pointer.0 as i128 - grab.0 as i128;
                let dy: i128 = pointer.1 as i128 - grab.1 as i128;
                proof {
                    assert(-0x1_0000_0000 <= dx <= 0x1_0000_0000 && -0x1_0000_0000 <= dy <= 0x1_0000_0000);
                    assert(0 <= dx * dx <= 0x1_0000_0000 * 0x1_0000_0000) by (nonlinear_arith)
                        requires
                            -0x1_0000_0000 <= dx <= 0x1_0000_0000,
                    ;
                    assert(0 <= dy * dy <= 0x1_0000_0000 * 0x1_0000_0000) by (nonlinear_arith)
                        requires
                            -0x1_0000_0000 <= dy <= 0x1_0000_0000,
                    ;
                }
                if dx * dx + dy * dy <= THRESHOLD_SQ {
                    *self = Drag::Pressed { grab, origin, latest: pointer };
                    return false;
                }
                *self = Drag::Dragging { grab, applied: origin, latest: pointer };
                true
            },
            Drag::Dragging { grab, applied, latest: _ } => {
                *self = Drag::Dragging { grab, applied, latest: pointer };
                false
            },
        }
    }

    /// Consume the coalesced delta: the next position to apply, measured
    /// against the last applied one. Rebases the stash so the same movement
    /// is never applied twice (after the surface moves, a stationary pointer
    /// reads back as the grab point).
    pub fn take_pending(&mut self) -> (to: Option<(i32, i32)>)
        requires
            old(self).target_fits(),
        ensures
            *final(self) == old(self).rebased(),
            match to {
                Some((x, y)) => old(self).target() == Some((x as int, y as int)),
                None => old(self).target() is None,
            },
    {
        match *self {
            Drag::Dragging { grab, applied, latest } => {
                let x: i32 = applied.0 + round_to_px(latest.0, grab.0);
                let y: i32 = applied.1 + round_to_px(latest.1, grab.1);
                *self = Drag::Dragging { grab, applied: (x, y), latest: grab };
                Some((x, y))
            },
            _ => None,
        }
    }

    pub fn release(&mut self) -> (out: Release)
        ensures
            *final(self) == Drag::Idle,
            out == match *old(self) {
                Drag::Idle => Release::Nothing,
                Drag::Pressed { .. } => Release::Click,
                Drag::Dragging { .. } => Release::Dropped,
            },
    {
        let out: Release = match *self {
            Drag::Idle => Release::Nothing,
            Drag::Pressed { .. } => Release::Click,
            Drag::Dragging { .. } => Release::Dropped,
        };
        *self = Drag::Idle;
        out
    }

    pub fn dragging(&self) -> (yes: bool)
        ensures
            yes == (*self is Dragging),
    {
        match self {
            Drag::Dragging { .. } => true,
            _ => false,
        }
    }
}

/// State after a run of motions.
pub open spec fn after_motions(drag: Drag, run: Seq<(i32, i32)>) -> Drag
    decreases run.len(),
{
    if run.len() == 0 {
        drag
    } else {
        after_motions(drag, run.drop_last()).moved(run.last()).0
    }
}

/// How many motions of a run report the start of the drag.
pub open spec fn starts(drag: Drag, run: Seq<(i32, i32)>) -> nat
    decreases run.len(),
{
    if run.len() == 0 {
        0
    } else {
        starts(drag, run.drop_last()) + if after_motions(drag, run.drop_last()).moved(run.last()).1 {
            1nat
        } else {
            0
        }
    }
}

/// Some motion of the run goes past the threshold.
pub open spec fn crosses(grab: (i32, i32), run: Seq<(i32, i32)>) -> bool {
    exists|k: int| 0 <= k < run.len() && past_threshold(grab, #[trigger] run[k])
}

/// After a press, the drag starts with the first motion past the threshold,
/// is reported exactly then, and goes on whatever follows; motions that stay
/// within the threshold leave a click.
pub proof fn drag_starts_once(grab: (i32, i32), origin: (i32, i32), run: Seq<(i32, i32)>)
    ensures
        ({
            let pressed = Drag::Pressed { grab, origin, latest: grab };
            let after = after_motions(pressed, run);
            &&& crosses(grab, run) ==> starts(pressed, run) == 1 && after == (Drag::Dragging {
                grab,
                applied: origin,
                latest: run.last(),
            })
            &&& !crosses(grab, run) ==> starts(pressed, run) == 0 && after == (Drag::Pressed {
                grab,
                origin,
                latest: if run.len() == 0 {
                    grab
                } else {
                    run.last()
                },
            })
        }),
    decreases run.len(),
{
    if run.len() > 0 {
        let rest = run.drop_last();
        drag_starts_once(grab, origin, rest);
        assert(run[run.len() - 1] == run.last());
        if crosses(grab, rest) {
            let k = choose|k: int| 0 <= k < rest.len() && past_threshold(grab, #[trigger] rest[k]);
            assert(run[k] == rest[k]);
        }
        if crosses(grab, run) && !past_threshold(grab, run.last()) {
            let k = choose|k: int| 0 <= k < run.len() && past_threshold(grab, #[trigger] run[k]);
            assert(rest[k] == run[k]);
        }
    }
}

/// Motions between two applications coalesce: only the last counts.
pub proof fn motions_coalesce(drag: Drag, run: Seq<(i32, i32)>)
    requires
        drag is Dragging,
        run.len() > 0,
    ensures
        after_motions(drag, run) == drag.moved(run.last()).0,
        starts(drag, run) == 0,
    decreases run.len(),
{
    if run.len() > 1 {
        motions_coalesce(drag, run.drop_last());
    } else {
        assert(run.drop_last() =~= Seq::<(i32, i32)>::empty());
        assert(after_motions(drag, run.drop_last()) == drag);
        assert(starts(drag, run.drop_last()) == 0);
    }
}

/// The same movement is never applied twice: once applied, the target stays
/// where it is, and so it does for a pointer that reads back as the grab point.
pub proof fn movement_is_applied_once(drag: Drag)
    requires
        drag is Dragging,
        drag.target_fits(),
    ensures
        drag.rebased() is Dragging,
        drag.rebased().target_fits(),
        drag.rebased().target() == drag.target(),
        drag.rebased().rebased() == drag.rebased(),
        drag.rebased().moved(drag->Dragging_grab).0 == drag.rebased(),
{
}

/// A distance is rounded to the nearest whole pixel (256 pointer units), halves
/// away from where it started, and alike in both directions.
pub proof fn distances_round_to_the_nearest_pixel(d: int)
    ensures
        -128 <= 256 * round_px(d) - d <= 128,
        d >= 0 ==> 256 * round_px(d) - d > -128,
        d <= 0 ==> 256 * round_px(d) - d < 128,
        round_px(-d) == -round_px(d),
{
}

/// A press becomes a drag exactly past four pixels (1024 pointer units) from
/// the grab point, in any direction.
pub proof fn drags_start_past_four_pixels(grab: (i32, i32), origin: (i32, i32), latest: (i32, i32), pointer: (i32, i32))
    ensures
        ({
            let dx = pointer.0 - grab.0;
            let dy = pointer.1 - grab.1;
            let (after, started) = (Drag::Pressed { grab, origin, latest }).moved(pointer);
            &&& started <==> dx * dx + dy * dy > 1024 * 1024
            &&& started <==> after is Dragging
            &&& !started ==> after is Pressed
        }),
{
}

/// The pet follows the pointer: pressed at `grab` with the pet at `origin` and
/// moved past the threshold, it is to go as many whole pixels as the pointer
/// went; and from where it went, on by as many as the pointer moves next, seen
/// from the surface that moved along.
pub proof fn the_pet_follows_the_pointer(grab: (i32, i32), origin: (i32, i32), to: (i32, i32), next: (i32, i32))
    requires
        (to.0 - grab.0) * (to.0 - grab.0) + (to.1 - grab.1) * (to.1 - grab.1) > 1024 * 1024,
        (Drag::Pressed { grab, origin, latest: grab }).moved(to).0.target_fits(),
    ensures
        ({
            let drag = (Drag::Pressed { grab, origin, latest: grab }).moved(to).0;
            let (x, y) = drag.target()->0;
            let on = drag.rebased().moved(next).0;
            let (nx, ny) = on.target()->0;
            &&& drag.target() is Some
            &&& -128 <= 256 * (x - origin.0) - (to.0 - grab.0) <= 128
            &&& -128 <= 256 * (y - origin.1) - (to.1 - grab.1) <= 128
            &&& on.target() is Some
            &&& -128 <= 256 * (nx - x) - (next.0 - grab.0) <= 128
            &&& -128 <= 256 * (ny - y) - (next.1 - grab.1) <= 128
        }),
{
    distances_round_to_the_nearest_pixel(to.0 - grab.0);
    distances_round_to_the_nearest_pixel(to.1 - grab.1);
    distances_round_to_the_nearest_pixel(next.0 - grab.0);
    distances_round_to_the_nearest_pixel(next.1 - grab.1);
}

/// Without a drag there is nowhere to go, and motions without a press start
/// none.
pub proof fn nothing_moves_without_a_drag(drag: Drag, pointer: (i32, i32))
    requires
        !(drag is Dragging),
    ensures
        drag.target() is None,
        drag.rebased() == drag,
        drag is Idle ==> drag.moved(pointer) == (drag, false),
{
}

} // verus!
