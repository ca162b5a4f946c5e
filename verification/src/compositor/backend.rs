//! Which compositor the renderer runs under.

use vstd::prelude::*;

verus! {

#[derive(Debug, Clone, Copy, PartialEq, Eq, Structural)]
pub enum Kind {
    Hyprland,
    WlrGeneric,
}

/// The kind of the running compositor, from whether Hyprland's instance
/// signature is in the environment.
pub fn detect(hyprland_signature: bool) -> (kind: Kind)
    ensures
        kind == if hyprland_signature {
            Kind::Hyprland
        } else {
            Kind::WlrGeneric
        },
{
    if hyprland_signature {
        Kind::Hyprland
    } else {
        Kind::WlrGeneric
    }
}

impl Kind {
    pub fn name(self) -> (name: &'static str)
        ensures
            name@ == match self {
                Kind::Hyprland => "hyprland"@,
                Kind::WlrGeneric => "wlr-generic"@,
            },
    {
        match self {
            Kind::Hyprland => "hyprland",
            Kind::WlrGeneric => "wlr-generic",
        }
    }
}

} // verus!
