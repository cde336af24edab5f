//! Limits on how often an event is reported.
use vstd::prelude::*;

verus! {

/// Lets an event through a fixed number of times, until it is cleared.
#[derive(Debug, Clone, Copy, PartialEq, Eq, Structural)]
pub struct EventThrottle {
    /// How many times the event may be reported.
    pub limit: u32,
    /// How many times it has been reported since the last clear.
    pub count: u32,
}

impl EventThrottle {
    /// The reports let through never exceed the limit.
    pub open spec fn wf(self) -> bool {
        self.count <= self.limit
    }

    /// Whether the next report is let through.
    pub open spec fn open(self) -> bool {
        self.count < self.limit
    }

    /// The throttle after one more attempt to report.
    pub open spec fn tried(self) -> EventThrottle {
        if self.open() {
            EventThrottle { limit: self.limit, count: (self.count + 1) as u32 }
        } else {
            self
        }
    }

    /// The throttle with nothing reported.
    pub open spec fn cleared(self) -> EventThrottle {
        EventThrottle { limit: self.limit, count: 0 }
    }

    /// A throttle that lets `limit` reports through.
    pub fn new(limit: u32) -> (r: Self)
        ensures
            r == (EventThrottle { limit, count: 0 }),
    {
        EventThrottle { limit, count: 0 }
    }

    /// Counts an attempt to report and says whether it is let through.
    pub fn should_emit(&mut self) -> (r: bool)
        ensures
            r == old(self).open(),
            *final(self) == old(self).tried(),
    {
        if self.count < self.limit {
            self.count = self.count + 1;
            true
        } else {
            false
        }
    }

    /// Forgets what was reported.
    pub fn clear(&mut self)
        ensures
            *final(self) == old(self).cleared(),
    {
        self.count = 0;
    }
}

/// The throttle after `n` more attempts to report.
pub open spec fn tried_times(t: EventThrottle, n: nat) -> EventThrottle
    decreases n,
{
    if n == 0 {
        t
    } else {
        tried_times(t, (n - 1) as nat).tried()
    }
}

/// From a cleared throttle, attempt number `n` (from zero) is let through exactly
/// when `n` is below the limit, so the limit is how many reports there ever are
/// between two clears.
pub proof fn law_throttle_lets_limit_through(t: EventThrottle, n: nat)
    requires
        t.count == 0,
    ensures
        tried_times(t, n).open() <==> n < t.limit,
        tried_times(t, n).count == (if n < t.limit {
            n as int
        } else {
            t.limit as int
        }),
        tried_times(t, n).limit == t.limit,
    decreases n,
{
    if n > 0 {
        law_throttle_lets_limit_through(t, (n - 1) as nat);
    }
}

/// A throttle that was cleared lets reports through again, as many as at first, whatever was
/// reported before.
pub proof fn law_cleared_throttle_starts_over(t: EventThrottle, n: nat)
    ensures
        tried_times(t.cleared(), n).open() <==> n < t.limit,
        t.cleared().limit == t.limit,
{
    law_throttle_lets_limit_through(t.cleared(), n);
}

/// An attempt that is let through is counted, and one that is not changes nothing.
pub proof fn law_attempt_counts(t: EventThrottle)
    ensures
        t.open() <==> t.count < t.limit,
        t.tried().limit == t.limit,
        t.tried().count == t.count + (if t.count < t.limit {
            1int
        } else {
            0int
        }),
{
}

} // verus!
