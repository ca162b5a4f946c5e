//! Mascot visibility. Hidden = unmapped (null buffer committed); remapping
//! requires a fresh configure round-trip per the layer-shell protocol, so
//! showing passes through `Remapping` until that configure lands.

use vstd::prelude::*;

verus! {

#[derive(Debug, Clone, Copy, PartialEq, Eq, Structural)]
pub enum Visibility {
    Visible,
    Hidden,
    /// Waiting for the post-unmap configure before attaching a buffer.
    Remapping,
}

/// What happens to a surface's mapping.
pub enum Mapping {
    /// A null buffer is committed.
    Unmap,
    /// The mapped state is asked for again.
    Remap,
    /// The compositor configures the surface.
    Configure,
}

impl Visibility {
    /// Visibility after a step.
    pub open spec fn after(self, step: Mapping) -> Visibility {
        match step {
            Mapping::Unmap => Visibility::Hidden,
            Mapping::Remap => Visibility::Remapping,
            Mapping::Configure => if self == Visibility::Remapping {
                Visibility::Visible
            } else {
                self
            },
        }
    }

    /// Visibility after a run of steps.
    pub open spec fn after_all(self, run: Seq<Mapping>) -> Visibility
        decreases run.len(),
    {
        if run.len() == 0 {
            self
        } else {
            self.after_all(run.drop_last()).after(run.last())
        }
    }
}

/// From `i` on, the run asks to be mapped at `i` and is neither unmapped nor
/// asked again.
pub open spec fn asked_at(run: Seq<Mapping>, i: int) -> bool {
    &&& 0 <= i < run.len()
    &&& run[i] is Remap
    &&& forall|k: int| i < k < run.len() ==> #[trigger] run[k] is Configure
}

/// A hidden mascot is only seen again once it was asked for and a configure
/// landed after that; until then it is hidden or being mapped.
pub proof fn shown_only_after_a_configure(run: Seq<Mapping>)
    ensures
        Visibility::Hidden.after_all(run) == Visibility::Visible ==> exists|i: int| #[trigger]
            asked_at(run, i) && i + 1 < run.len(),
        Visibility::Hidden.after_all(run) == Visibility::Remapping ==> exists|i: int| #[trigger]
            asked_at(run, i) && i + 1 == run.len(),
    decreases run.len(),
{
    if run.len() > 0 {
        let rest = run.drop_last();
        shown_only_after_a_configure(rest);
        assert(run[run.len() - 1] == run.last());
        match run.last() {
            Mapping::Unmap => {},
            Mapping::Remap => {
                assert(asked_at(run, run.len() - 1));
            },
            Mapping::Configure => {
                let was = Visibility::Hidden.after_all(rest);
                if was != Visibility::Hidden {
                    let i = choose|i: int| #[trigger] asked_at(rest, i);
                    assert(run[i] == rest[i]);
                    assert forall|k: int| i < k < run.len() implies #[trigger] run[k] is Configure by {
                        if k < rest.len() {
                            assert(rest[k] == run[k]);
                        }
                    }
                    assert(asked_at(run, i));
                }
            },
        }
    }
}

impl Default for Visibility {
    fn default() -> (visibility: Self)
        ensures
            visibility == Visibility::Visible,
    {
        Visibility::Visible
    }
}

impl Visibility {
    pub fn shown(self) -> (shown: bool)
        ensures
            shown == (self == Visibility::Visible),
    {
        match self {
            Visibility::Visible => true,
            _ => false,
        }
    }
}

/// A mascot that is asked for is seen with the next configure and not before,
/// whatever it was; one that is unmapped is hidden at once and stays so however
/// often it is configured; and a configure changes nothing of one that is seen.
pub proof fn configures_reveal_what_was_asked_for(v: Visibility)
    ensures
        v.after(Mapping::Remap) == Visibility::Remapping,
        v.after(Mapping::Remap).after(Mapping::Configure) == Visibility::Visible,
        v.after(Mapping::Unmap) == Visibility::Hidden,
        v.after(Mapping::Unmap).after(Mapping::Configure) == Visibility::Hidden,
        Visibility::Visible.after(Mapping::Configure) == Visibility::Visible,
{
}

} // verus!
