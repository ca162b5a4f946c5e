//! Pacing of the event-socket reader: reconnect delays.

use vstd::prelude::*;

verus! {

/// Seconds between attempts to connect, after ever more failures.
pub const BACKOFF_S: [u64; 3] = [1, 3, 10];

/// Delay after `failures` attempts in a row that did not connect.
pub open spec fn delay_after(failures: int) -> u64 {
    BACKOFF_S@[crate::ints::min_of(failures, 2)]
}

/// Attempts to connect that failed in a row.
#[derive(Debug, Clone, Copy, PartialEq, Eq, Structural)]
pub struct Reconnect {
    pub failures: usize,
}

impl Reconnect {
    pub fn new() -> (r: Self)
        ensures
            r.failures == 0,
    {
        Reconnect { failures: 0 }
    }

    /// An attempt is over: it did not connect, or it did and the stream ended
    /// since. Returns the seconds to wait before the next one.
    pub fn attempted(&mut self, connected: bool) -> (delay_s: u64)
        requires
            !connected ==> old(self).failures < usize::MAX,
        ensures
            delay_s == delay_after(if connected {
                0
            } else {
                old(self).failures as int
            }),
            final(self).failures == if connected {
                1
            } else {
                old(self).failures + 1
            },
    {
        if connected {
            self.failures = 0;
        }
        let step: usize = if self.failures < 2 {
            self.failures
        } else {
            2
        };
        self.failures += 1;
        BACKOFF_S[step]
    }
}

/// Delays never shrink while attempts keep failing, and stay bounded.
pub proof fn delays_grow_to_a_bound(a: int, b: int)
    requires
        0 <= a <= b,
    ensures
        1 <= delay_after(a) <= delay_after(b) <= 10,
{
}

/// The first failure is followed by a wait of a second, the second by one of
/// three, and every further by ten.
pub proof fn waits_are_one_three_ten(failures: int)
    ensures
        delay_after(0) == 1,
        delay_after(1) == 3,
        failures >= 2 ==> delay_after(failures) == 10,
{
}

} // verus!
