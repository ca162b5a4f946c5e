//! Pacing of the cursor-position poll: at ~15 Hz *only while gaze is wanted*,
//! and only movement is pushed. Wayland won't hand a layer surface the global
//! pointer, so polling is the only way to make the pet track the cursor across
//! the screen.

use vstd::prelude::*;

verus! {

/// ~15 Hz. Fast enough that the eyes track smoothly, slow enough that the
/// socket poll is negligible; only runs while gaze is wanted.
pub const POLL_INTERVAL_MS: u64 = 66;

/// While gaze is idle, wake this often to notice it being wanted without
/// spinning a tight loop.
pub const IDLE_INTERVAL_MS: u64 = 200;

/// The poll's memory: the last point that was pushed.
#[derive(Debug, Clone, Copy, PartialEq, Eq)]
pub struct CursorPoll {
    pub last: Option<(i32, i32)>,
}

impl CursorPoll {
    pub fn new() -> (poll: Self)
        ensures
            poll.last is None,
    {
        CursorPoll { last: None }
    }

    /// Gaze is not wanted: the first point is sent again when it resumes.
    /// Returns how long to sleep.
    pub fn rest(&mut self) -> (sleep_ms: u64)
        ensures
            final(self).last is None,
            sleep_ms == IDLE_INTERVAL_MS,
    {
        self.last = None;
        IDLE_INTERVAL_MS
    }

    /// A query came back, with a point where there was one. Returns the point
    /// to push, if it moved - a still cursor needn't wake the loop - and how
    /// long to sleep.
    pub fn polled(&mut self, point: Option<(i32, i32)>) -> (out: (Option<(i32, i32)>, u64))
        ensures
            out.1 == POLL_INTERVAL_MS,
            match point {
                Some(p) => {
                    &&& final(self).last == Some(p)
                    &&& out.0 == if old(self).last == Some(p) {
                        None
                    } else {
                        Some(p)
                    }
                },
                None => *final(self) == *old(self) && out.0 is None,
            },
    {
        match point {
            Some(p) => {
                let same: bool = match self.last {
                    Some(q) => q.0 == p.0 && q.1 == p.1,
                    None => false,
                };
                if same {
                    (None, POLL_INTERVAL_MS)
                } else {
                    self.last = Some(p);
                    (Some(p), POLL_INTERVAL_MS)
                }
            },
            None => (None, POLL_INTERVAL_MS),
        }
    }
}

} // verus!
