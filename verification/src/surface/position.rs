//! Persisted mascot placement: **global** logical top-left of the *mascot*
//! (not the surface - the bubble area around it is derived) plus visibility.
//! Global means the compositor's multi-output logical coordinate space;
//! per-output margins are derived by subtracting the output's origin.
//!
//! A state file may instead hold an output-local shape (`{output_name,
//! margin_x, margin_y}`); such files load as `Loaded::Legacy` and are migrated
//! to a global point once output geometry is known.

use vstd::prelude::*;

use crate::strings::join_path;
use crate::strings::str_eq;
use crate::surface::outputs::OutputRect;

verus! {

#[derive(Debug, Clone, Copy, PartialEq, Eq, Structural)]
pub struct Position {
    pub x: i32,
    pub y: i32,
    pub visible: bool,
}

/// The single-monitor on-disk shape: margins local to a (named) output.
#[derive(Debug, PartialEq, Eq)]
pub struct LegacyPosition {
    pub output_name: Option<String>,
    pub margin_x: i32,
    pub margin_y: i32,
    pub visible: bool,
}

/// What a state file parsed as. Legacy files cannot be migrated at load time
/// (output rects arrive later, over the wire) - the caller holds the legacy
/// value and retries `LegacyPosition::migrate` as geometry comes in.
#[derive(Debug, PartialEq, Eq)]
pub enum Loaded {
    Global(Position),
    Legacy(LegacyPosition),
    Missing,
}

/// A file that does not say whether the mascot is visible means that it is.
pub fn default_true() -> (visible: bool)
    ensures
        visible,
{
    true
}

/// `i` is the first output of that name.
pub open spec fn first_named(outputs: Seq<OutputRect>, name: Option<Seq<char>>, i: int) -> bool {
    &&& 0 <= i < outputs.len()
    &&& name == Some(outputs[i].name@)
    &&& forall|k: int| 0 <= k < i ==> name != Some((#[trigger] outputs[k]).name@)
}

/// `i` is the output that margins recorded for `name` count from: the first of
/// that name, else the first of all.
pub open spec fn counts_from(outputs: Seq<OutputRect>, name: Option<Seq<char>>, i: int) -> bool {
    ||| first_named(outputs, name, i)
    ||| i == 0 && outputs.len() > 0 && forall|k: int|
        0 <= k < outputs.len() ==> name != Some((#[trigger] outputs[k]).name@)
}

impl LegacyPosition {
    /// Lift output-local margins into a global point: the origin of the
    /// output whose name was recorded (else the first output) plus the
    /// margins. `None` while no output geometry is known yet.
    pub fn migrate(&self, outputs: &[OutputRect]) -> (position: Option<Position>)
        requires
            forall|i: int| #[trigger]
                counts_from(outputs@, crate::strings::text_of(self.output_name), i) ==> {
                    &&& crate::surface::outputs::fits_i32(outputs@[i].x + self.margin_x)
                    &&& crate::surface::outputs::fits_i32(outputs@[i].y + self.margin_y)
                },
        ensures
            match position {
                Some(p) => exists|i: int| #[trigger]
                    counts_from(outputs@, crate::strings::text_of(self.output_name), i) && {
                        &&& p.x == outputs@[i].x + self.margin_x
                        &&& p.y == outputs@[i].y + self.margin_y
                        &&& p.visible == self.visible
                    },
                None => outputs@.len() == 0,
            },
    {
        if outputs.len() == 0 {
            return None;
        }
        let mut at: usize = 0;
        let mut i: usize = 0;
        if let Some(name) = &self.output_name {
            while i < outputs.len() && !str_eq(outputs[i].name.as_str(), name.as_str())
                invariant
                    i <= outputs@.len(),
                    self.output_name == Some(*name),
                    forall|k: int| 0 <= k < i ==> (#[trigger] outputs@[k]).name@ != name@,
                decreases outputs@.len() - i,
            {
                i += 1;
            }
            if i < outputs.len() {
                at = i;
            }
        }
        assert(counts_from(outputs@, crate::strings::text_of(self.output_name), at as int));
        let out: &OutputRect = &outputs[at];
        Some(Position { x: out.x + self.margin_x, y: out.y + self.margin_y, visible: self.visible })
    }
}

/// Where the position is kept: below the state directory, by default that of
/// the home directory.
pub open spec fn state_path_of(state_home: Option<Seq<char>>, home: Option<Seq<char>>) -> Seq<char> {
    let base = match state_home {
        Some(s) => s,
        None => crate::strings::joined(
            match home {
                Some(h) => h,
                None => "/"@,
            },
            ".local/state"@,
        ),
    };
    crate::strings::joined(base, "agent-pet/position.json"@)
}

impl Position {
    /// Path of the state file, from `XDG_STATE_HOME` and `HOME` as far as they
    /// are set.
    pub fn state_path(state_home: Option<&str>, home: Option<&str>) -> (path: String)
        ensures
            path@ == state_path_of(
                match state_home {
                    Some(s) => Some(s@),
                    None => None,
                },
                match home {
                    Some(h) => Some(h@),
                    None => None,
                },
            ),
    {
        let base: String = match state_home {
            Some(s) => s.to_owned(),
            None => match home {
                Some(h) => join_path(h, ".local/state"),
                None => join_path("/", ".local/state"),
            },
        };
        join_path(base.as_str(), "agent-pet/position.json")
    }

    /// What a state file holds, given how it reads in the global shape and in
    /// the legacy one. The global shape requires `x`/`y`, the legacy one
    /// `margin_x`/`margin_y` - the formats are disjoint, so they are tried in
    /// order.
    pub fn load(global: Option<Position>, legacy: Option<LegacyPosition>) -> (loaded: Loaded)
        ensures
            loaded == match global {
                Some(p) => Loaded::Global(p),
                None => match legacy {
                    Some(l) => Loaded::Legacy(l),
                    None => Loaded::Missing,
                },
            },
    {
        if let Some(p) = global {
            return Loaded::Global(p);
        }
        match legacy {
            Some(l) => Loaded::Legacy(l),
            None => Loaded::Missing,
        }
    }
}

/// A migrated position is where the margins put the mascot: it resolves to the
/// output that they were recorded for, with the same distance from its edges,
/// unless an output listed before overlaps there.
pub proof fn migration_keeps_the_place(
    outputs: Seq<OutputRect>,
    name: Option<Seq<char>>,
    margin_x: int,
    margin_y: int,
    i: int,
    host: int,
)
    requires
        counts_from(outputs, name, i),
        0 <= margin_x < outputs[i].w,
        0 <= margin_y < outputs[i].h,
        forall|k: int|
            0 <= k < i ==> !(#[trigger] outputs[k]).holds(outputs[i].x + margin_x, outputs[i].y + margin_y),
        crate::surface::outputs::hosts(outputs, outputs[i].x + margin_x, outputs[i].y + margin_y, host),
    ensures
        host == i,
        outputs[i].x + margin_x - outputs[host].x == margin_x,
        outputs[i].y + margin_y - outputs[host].y == margin_y,
{
    let (x, y) = (outputs[i].x + margin_x, outputs[i].y + margin_y);
    assert(crate::surface::outputs::first_holding(outputs, x, y, i));
    crate::surface::outputs::host_is_unique(outputs, x, y, i, host);
}

/// Margins of a named output count from that output's corner, and those of a
/// name that is not there (or of none) from the first output's; the pet is as
/// visible as it was.
pub proof fn margins_count_from_their_output(
    legacy: &LegacyPosition,
    outputs: &[OutputRect],
    position: Option<Position>,
    i: int,
)
    requires
        call_ensures(LegacyPosition::migrate, (legacy, outputs), position),
        0 <= i < outputs@.len(),
        i == 0 && legacy.output_name is None || {
            &&& legacy.output_name matches Some(n)
            &&& outputs@[i].name@ == n@
            &&& forall|k: int| 0 <= k < i ==> (#[trigger] outputs@[k]).name@ != n@
        } || {
            &&& i == 0
            &&& legacy.output_name matches Some(n)
            &&& forall|k: int| 0 <= k < outputs@.len() ==> (#[trigger] outputs@[k]).name@ != n@
        },
    ensures
        position matches Some(p) && {
            &&& p.x - outputs@[i].x == legacy.margin_x
            &&& p.y - outputs@[i].y == legacy.margin_y
            &&& p.visible == legacy.visible
        },
{
    let name = crate::strings::text_of(legacy.output_name);
    let p = position->0;
    let j = choose|j: int| #[trigger]
        counts_from(outputs@, name, j) && p.x == outputs@[j].x + legacy.margin_x && p.y == outputs@[j].y
            + legacy.margin_y && p.visible == legacy.visible;
    if j != i {
        assert(outputs@[i].name@ == outputs@[i].name@);
        assert(outputs@[j].name@ == outputs@[j].name@);
    }
}

/// The state file lies below the state directory where that is set, and below
/// the home's own otherwise.
pub proof fn state_file_has_its_place(state: &str, home: &str, set: String, unset: String)
    requires
        call_ensures(Position::state_path, (Some(state), Some(home)), set),
        call_ensures(Position::state_path, (None, Some(home)), unset),
        state@.len() > 0,
        home@.len() > 0,
        state@.last() != '/',
        home@.last() != '/',
    ensures
        set@ == state@ + "/agent-pet/position.json"@,
        unset@ == home@ + "/.local/state/agent-pet/position.json"@,
{
    reveal_strlit("agent-pet/position.json");
    reveal_strlit("/agent-pet/position.json");
    reveal_strlit(".local/state");
    reveal_strlit("/.local/state/agent-pet/position.json");
    assert(set@ =~= state@ + "/agent-pet/position.json"@);
    let base = crate::strings::joined(home@, ".local/state"@);
    assert(base.last() == 'e');
    assert(unset@ =~= home@ + "/.local/state/agent-pet/position.json"@);
}

/// A file that reads as a position is that position, whatever else it reads as;
/// one that reads only as margins is those; any other is as good as none.
pub proof fn files_are_what_they_read_as(global: Option<Position>, legacy: Option<LegacyPosition>, loaded: Loaded)
    requires
        call_ensures(Position::load, (global, legacy), loaded),
    ensures
        global matches Some(p) ==> loaded == Loaded::Global(p),
        global is None ==> (legacy matches Some(l) ==> loaded == Loaded::Legacy(l)),
        loaded is Missing <==> global is None && legacy is None,
{
}

} // verus!
