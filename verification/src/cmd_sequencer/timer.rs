//! One-shot timers.
use vstd::prelude::*;

use crate::fw::time::{Time, TimeComparison};

verus! {

/// A one-shot expiration time.
#[derive(Debug, Clone, Copy, PartialEq, Eq, Structural)]
pub struct Timer {
    /// Whether the timer is running.
    pub armed: bool,
    /// When it expires.
    pub expiration: Time,
}

impl Timer {
    /// A timer that is not running.
    pub open spec fn initial() -> Timer {
        Timer { armed: false, expiration: Time::zero() }
    }

    /// A timer that expires at `time`.
    pub open spec fn at(time: Time) -> Timer {
        Timer { armed: true, expiration: time }
    }

    /// The timer, not running.
    pub open spec fn disarmed(self) -> Timer {
        Timer { armed: false, ..self }
    }

    /// Whether the timer has run out at `time`. Only a later expiration on the same
    /// clock keeps it running: a time on another clock counts as past.
    pub open spec fn expired(self, time: Time) -> bool {
        self.armed && self.expiration.relation(time) != TimeComparison::Gt
    }

    /// A timer that is not running.
    pub fn new() -> (r: Self)
        ensures
            r == Timer::initial(),
    {
        Timer { armed: false, expiration: Time::default() }
    }

    /// Starts the timer.
    pub fn set(&mut self, time: Time)
        ensures
            *final(self) == Timer::at(time),
    {
        self.armed = true;
        self.expiration = time;
    }

    /// Stops the timer.
    pub fn clear(&mut self)
        ensures
            *final(self) == old(self).disarmed(),
    {
        self.armed = false;
    }

    /// Whether the timer has run out at `time`.
    pub fn is_expired_at(&self, time: &Time) -> (r: bool)
        ensures
            r == self.expired(*time),
    {
        self.armed && Time::compare(&self.expiration, time) != TimeComparison::Gt
    }

    /// When the timer expires.
    pub fn expiration_time(&self) -> (r: Time)
        ensures
            r == self.expiration,
    {
        self.expiration
    }

    /// Whether the timer is running.
    pub fn is_armed(&self) -> (r: bool)
        ensures
            r == self.armed,
    {
        self.armed
    }
}

impl Default for Timer {
    fn default() -> (r: Self)
        ensures
            r == Timer::initial(),
    {
        Timer::new()
    }
}

/// A stopped timer never runs out; a running one has run out at a time on the same
/// clock exactly when that time is no earlier than its expiration, and at every time
/// on another clock.
pub proof fn law_timer_expiry(t: Timer, now: Time)
    requires
        t.expiration.wf(),
        now.wf(),
    ensures
        !t.armed ==> !t.expired(now),
        t.armed && t.expiration.same_clock(now) ==> (t.expired(now) <==> now.total_useconds()
            >= t.expiration.total_useconds()),
        t.armed && !t.expiration.same_clock(now) ==> t.expired(now),
        !t.disarmed().expired(now),
{
}

} // verus!
