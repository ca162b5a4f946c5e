//! Keeping the renderer alive: what the daemon asks of it, and when a renderer
//! that stopped is started again.

use vstd::prelude::*;

verus! {

/// Which pet to show.
#[derive(Debug, PartialEq, Eq)]
pub struct PetSelection {
    pub skin: Option<String>,
}

/// Daemon -> renderer commands. Watch-carried with a sequence number so a
/// restarted renderer can tell a fresh command from a stale replay.
#[derive(Debug, Clone, Copy, PartialEq, Eq)]
pub struct Control {
    pub seq: u64,
    pub cmd: Option<ControlCmd>,
}

#[derive(Debug, Clone, Copy, PartialEq, Eq, Structural)]
pub enum ControlCmd {
    Show,
    Hide,
}

impl Default for PetSelection {
    fn default() -> (selection: Self)
        ensures
            selection.skin is None,
    {
        PetSelection { skin: None }
    }
}

impl Default for Control {
    fn default() -> (control: Self)
        ensures
            control == (Control { seq: 0, cmd: None }),
    {
        Control { seq: 0, cmd: None }
    }
}

/// Seconds before the renderer is started again, after ever more failures.
pub const BACKOFF_S: [u64; 3] = [5, 15, 60];

/// Delay after `failures` failed runs in a row.
pub open spec fn delay_after(failures: int) -> u64 {
    BACKOFF_S@[crate::ints::min_of(failures, 2)]
}

/// How a run of the renderer ended.
#[derive(Debug, Clone, Copy, PartialEq, Eq, Structural)]
pub enum Outcome {
    /// It was told to shut down.
    Finished,
    /// It failed or panicked.
    Broken,
}

/// What follows a run of the renderer.
#[derive(Debug, Clone, Copy, PartialEq, Eq, Structural)]
pub enum Next {
    Exit,
    /// Start again after so many seconds.
    Retry { delay_s: u64 },
}

/// Failed runs in a row.
#[derive(Debug, Clone, Copy, PartialEq, Eq, Structural)]
pub struct Supervisor {
    pub failures: usize,
}

impl Supervisor {
    pub fn new() -> (s: Self)
        ensures
            s.failures == 0,
    {
        Supervisor { failures: 0 }
    }

    /// Failed runs before this one that still count: none once a run survived
    /// as long as the longest delay.
    pub open spec fn counted(self, ran_s: u64) -> int {
        if ran_s >= 60 {
            0
        } else {
            self.failures as int
        }
    }

    /// A run ended after `ran_s` whole seconds. `daemon_gone` tells whether
    /// the daemon's side of the channel is closed.
    pub fn ended(&mut self, outcome: Outcome, daemon_gone: bool, ran_s: u64) -> (next: Next)
        requires
            outcome == Outcome::Broken && !daemon_gone ==> old(self).counted(ran_s) < usize::MAX,
        ensures
            next == if outcome == Outcome::Finished || daemon_gone {
                Next::Exit
            } else {
                Next::Retry { delay_s: delay_after(old(self).counted(ran_s)) }
            },
            final(self).failures == if next == Next::Exit {
                old(self).failures as int
            } else {
                old(self).counted(ran_s) + 1
            },
    {
        match outcome {
            Outcome::Finished => {
                return Next::Exit;
            },
            Outcome::Broken => {},
        }
        if daemon_gone {
            return Next::Exit;
        }
        // A run that survived a while was healthy - start backoff over.
        if ran_s >= BACKOFF_S[2] {
            self.failures = 0;
        }
        let step: usize = if self.failures < 2 {
            self.failures
        } else {
            2
        };
        self.failures += 1;
        Next::Retry { delay_s: BACKOFF_S[step] }
    }
}

/// Runs that keep failing soon are spaced ever wider, up to a minute; a run
/// that lasted that long starts the spacing over.
pub proof fn failing_runs_are_spaced_out(a: int, b: int, s: Supervisor, ran_s: u64)
    requires
        0 <= a <= b,
    ensures
        5 <= delay_after(a) <= delay_after(b) <= 60,
        ran_s >= 60 ==> delay_after(s.counted(ran_s)) == 5,
{
}

/// The message of a panic, whose payload is a static string, an owned one, or
/// something else.
pub fn panic_message<'a>(literal: Option<&'a str>, owned: Option<&'a str>) -> (text: &'a str)
    ensures
        text@ == match literal {
            Some(s) => s@,
            None => match owned {
                Some(s) => s@,
                None => "<non-string panic payload>"@,
            },
        },
{
    match literal {
        Some(s) => s,
        None => match owned {
            Some(s) => s,
            None => "<non-string panic payload>",
        },
    }
}

/// The first failure is followed by a wait of five seconds, the second by one
/// of fifteen, and every further by a minute.
pub proof fn waits_are_five_fifteen_sixty(failures: int, s: Supervisor, ran_s: u64)
    ensures
        delay_after(0) == 5,
        delay_after(1) == 15,
        failures >= 2 ==> delay_after(failures) == 60,
        ran_s < 60 ==> s.counted(ran_s) == s.failures,
        ran_s >= 60 ==> s.counted(ran_s) == 0,
{
}

/// A panic's own words are told where it has any.
pub proof fn panics_are_told_in_their_words(literal: Option<&str>, owned: Option<&str>, text: &str)
    requires
        call_ensures(panic_message, (literal, owned), text),
    ensures
        literal matches Some(s) ==> text@ == s@,
        literal is None ==> (owned matches Some(s) ==> text@ == s@),
{
}

} // verus!
