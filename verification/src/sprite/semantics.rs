//! Agent state -> animation track, degrading gracefully when a pet lacks a
//! semantic track.

use vstd::prelude::*;

use crate::proto::AgentState;
use crate::sprite::pet_json::PetDef;

verus! {

/// The track that shows a state: its own, or idle where the pet has none.
pub open spec fn shown_track(state: AgentState, pet: PetDef) -> Seq<char> {
    if pet.animations@.dom().contains(crate::proto::track_of(state)) {
        crate::proto::track_of(state)
    } else {
        crate::sprite::timeline::idle()
    }
}

pub fn track_for(state: AgentState, pet: &PetDef) -> (track: &'static str)
    ensures
        track@ == shown_track(state, *pet),
{
    let track: &'static str = state.track();
    if pet.animations.contains_key(track) {
        track
    } else {
        "idle"
    }
}

/// Every state shows its own track where the pet has it, and idle where it has
/// not.
pub proof fn states_show_their_own_track(state: AgentState, pet: &PetDef, track: &'static str)
    requires
        call_ensures(track_for, (state, pet), track),
    ensures
        state is Running && pet.animations@.dom().contains("running"@) ==> track@ == "running"@,
        state is Waiting && pet.animations@.dom().contains("waiting"@) ==> track@ == "waiting"@,
        state is Ready && pet.animations@.dom().contains("review"@) ==> track@ == "review"@,
        state is Failed && pet.animations@.dom().contains("failed"@) ==> track@ == "failed"@,
        state is Idle || state is Gone ==> track@ == "idle"@,
        !pet.animations@.dom().contains(track@) ==> track@ == "idle"@,
{
}

/// No two of the states that call for the user, or that work, look alike on a
/// pet that has all tracks.
pub proof fn states_look_different(a: AgentState, b: AgentState)
    requires
        a != b,
        !(a is Gone),
        !(b is Gone),
    ensures
        crate::proto::track_of(a) != crate::proto::track_of(b),
{
    reveal_strlit("idle");
    reveal_strlit("running");
    reveal_strlit("waiting");
    reveal_strlit("review");
    reveal_strlit("failed");
    assert("idle"@.len() == 4);
    assert("running"@.len() == 7 && "running"@[0] == 'r');
    assert("waiting"@.len() == 7 && "waiting"@[0] == 'w');
    assert("review"@.len() == 6 && "review"@[0] == 'r');
    assert("failed"@.len() == 6 && "failed"@[0] == 'f');
}

} // verus!
