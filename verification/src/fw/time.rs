//! Time tags.
use vstd::prelude::*;

use super::bytes;

verus! {

broadcast use crate::fw::bytes::lemma_be32_len;

/// What a time tag is counted from.
#[derive(Debug, Clone, Copy, PartialEq, Eq, Structural)]
pub enum TimeBase {
    /// No time base has been established.
    TbNone,
    /// Processor time, not tied to external time.
    TbProcTime,
    /// Time of the workstation that the software runs on.
    TbWorkstationTime,
    /// Time of the spacecraft clock.
    TbScTime,
    /// Any time base will do (used in sequence files).
    TbDontCare,
}

/// The time context that matches any other (used in sequence files).
pub const FW_CONTEXT_DONT_CARE: u8 = 0xFF;

/// Microseconds in a second.
pub const USECS_PER_SEC: u32 = 1_000_000;

impl TimeBase {
    /// The number that stands for the time base on the wire.
    pub open spec fn code(self) -> u16 {
        match self {
            TimeBase::TbNone => 0,
            TimeBase::TbProcTime => 1,
            TimeBase::TbWorkstationTime => 2,
            TimeBase::TbScTime => 3,
            TimeBase::TbDontCare => 0xFFFF,
        }
    }

    /// The time base that a number stands for, if any.
    pub open spec fn of_code(v: u16) -> Option<TimeBase> {
        if v == 0 {
            Some(TimeBase::TbNone)
        } else if v == 1 {
            Some(TimeBase::TbProcTime)
        } else if v == 2 {
            Some(TimeBase::TbWorkstationTime)
        } else if v == 3 {
            Some(TimeBase::TbScTime)
        } else if v == 0xFFFF {
            Some(TimeBase::TbDontCare)
        } else {
            None
        }
    }

    /// The number that stands for the time base on the wire.
    pub fn as_repr(self) -> (r: u16)
        ensures
            r == self.code(),
    {
        match self {
            TimeBase::TbNone => 0,
            TimeBase::TbProcTime => 1,
            TimeBase::TbWorkstationTime => 2,
            TimeBase::TbScTime => 3,
            TimeBase::TbDontCare => 0xFFFF,
        }
    }

    /// The time base that a number stands for, if any.
    pub fn from_repr(v: u16) -> (r: Option<Self>)
        ensures
            r == TimeBase::of_code(v),
    {
        if v == 0 {
            Some(TimeBase::TbNone)
        } else if v == 1 {
            Some(TimeBase::TbProcTime)
        } else if v == 2 {
            Some(TimeBase::TbWorkstationTime)
        } else if v == 3 {
            Some(TimeBase::TbScTime)
        } else if v == 0xFFFF {
            Some(TimeBase::TbDontCare)
        } else {
            None
        }
    }
}

/// A time tag: base, context, seconds and microseconds.
#[derive(Debug, Clone, Copy, PartialEq, Eq, Structural)]
pub struct Time {
    /// What the time is counted from.
    pub base: TimeBase,
    /// Distinguishes clocks that share a base.
    pub context: u8,
    /// Whole seconds.
    pub seconds: u32,
    /// Microseconds within the second.
    pub useconds: u32,
}

/// How two times relate.
#[derive(Debug, Clone, Copy, PartialEq, Eq, Structural)]
pub enum TimeComparison {
    /// The first is earlier.
    Lt,
    /// They are the same.
    Eq,
    /// The first is later.
    Gt,
    /// They are counted on different clocks.
    Incomparable,
}

impl Time {
    /// The microseconds stay below one second.
    pub open spec fn wf(self) -> bool {
        self.useconds < USECS_PER_SEC
    }

    /// Whether two times are counted on the same clock.
    pub open spec fn same_clock(self, other: Time) -> bool {
        self.base == other.base && self.context == other.context
    }

    /// The microseconds since the start of the clock.
    pub open spec fn total_useconds(self) -> int {
        self.seconds * USECS_PER_SEC + self.useconds
    }

    /// Whether `self` shows fewer seconds, or as many and fewer microseconds.
    pub open spec fn earlier(self, other: Time) -> bool {
        self.seconds < other.seconds || (self.seconds == other.seconds && self.useconds
            < other.useconds)
    }

    /// How `self` relates to `other`.
    pub open spec fn relation(self, other: Time) -> TimeComparison {
        if !self.same_clock(other) {
            TimeComparison::Incomparable
        } else if self.earlier(other) {
            TimeComparison::Lt
        } else if other.earlier(self) {
            TimeComparison::Gt
        } else {
            TimeComparison::Eq
        }
    }

    /// The time after a duration has gone by, on a clock whose seconds wrap around
    /// at 32 bits.
    pub open spec fn after(self, seconds: u32, useconds: u32) -> Time {
        let us = self.useconds + useconds;
        Time {
            base: self.base,
            context: self.context,
            seconds: ((self.seconds + seconds + us / USECS_PER_SEC as int) % 0x1_0000_0000) as u32,
            useconds: (us % USECS_PER_SEC as int) as u32,
        }
    }

    /// The start of the clock without a base.
    pub open spec fn zero() -> Time {
        Time { base: TimeBase::TbNone, context: 0, seconds: 0, useconds: 0 }
    }

    /// A time tag.
    pub fn new(base: TimeBase, context: u8, seconds: u32, useconds: u32) -> (r: Self)
        requires
            useconds < USECS_PER_SEC,
        ensures
            r == (Time { base, context, seconds, useconds }),
            r.wf(),
    {
        Time { base, context, seconds, useconds }
    }

    /// How `a` relates to `b`.
    pub fn compare(a: &Time, b: &Time) -> (r: TimeComparison)
        ensures
            r == a.relation(*b),
    {
        if a.base != b.base || a.context != b.context {
            TimeComparison::Incomparable
        } else if a.seconds < b.seconds {
            TimeComparison::Lt
        } else if a.seconds > b.seconds {
            TimeComparison::Gt
        } else if a.useconds < b.useconds {
            TimeComparison::Lt
        } else if a.useconds > b.useconds {
            TimeComparison::Gt
        } else {
            TimeComparison::Eq
        }
    }

    /// Moves the time on by a duration.
    pub fn add_duration(&mut self, seconds: u32, useconds: u32)
        requires
            old(self).wf(),
            useconds < USECS_PER_SEC,
        ensures
            *final(self) == old(self).after(seconds, useconds),
            final(self).wf(),
    {
        let us: u32 = self.useconds + useconds;
        let carry: u64 = if us >= USECS_PER_SEC {
            1
        } else {
            0
        };
        let total: u64 = self.seconds as u64 + seconds as u64 + carry;
        self.seconds = (total % 0x1_0000_0000) as u32;
        self.useconds = if us >= USECS_PER_SEC {
            us - USECS_PER_SEC
        } else {
            us
        };
    }

    /// Sets the seconds and microseconds, leaving the clock as it is.
    pub fn set(&mut self, seconds: u32, useconds: u32)
        requires
            useconds < USECS_PER_SEC,
        ensures
            *final(self) == (Time { seconds, useconds, ..*old(self) }),
    {
        self.seconds = seconds;
        self.useconds = useconds;
    }

    /// Sets the time base.
    pub fn set_time_base(&mut self, base: TimeBase)
        ensures
            *final(self) == (Time { base, ..*old(self) }),
    {
        self.base = base;
    }

    /// Sets the time context.
    pub fn set_time_context(&mut self, context: u8)
        ensures
            *final(self) == (Time { context, ..*old(self) }),
    {
        self.context = context;
    }

    /// The time base.
    pub fn get_time_base(&self) -> (r: TimeBase)
        ensures
            r == self.base,
    {
        self.base
    }

    /// The time context.
    pub fn get_context(&self) -> (r: u8)
        ensures
            r == self.context,
    {
        self.context
    }

    /// The whole seconds.
    pub fn get_seconds(&self) -> (r: u32)
        ensures
            r == self.seconds,
    {
        self.seconds
    }

    /// The microseconds within the second.
    pub fn get_useconds(&self) -> (r: u32)
        ensures
            r == self.useconds,
    {
        self.useconds
    }
}

impl Default for Time {
    fn default() -> (r: Self)
        ensures
            r == Time::zero(),
            r.wf(),
    {
        Time { base: TimeBase::TbNone, context: 0, seconds: 0, useconds: 0 }
    }
}

/// On one clock, times are ordered by the microseconds since its start.
pub proof fn law_time_order(a: Time, b: Time)
    requires
        a.wf(),
        b.wf(),
        a.same_clock(b),
    ensures
        a.relation(b) == TimeComparison::Lt <==> a.total_useconds() < b.total_useconds(),
        a.relation(b) == TimeComparison::Gt <==> a.total_useconds() > b.total_useconds(),
        a.relation(b) == TimeComparison::Eq <==> a == b,
{
}

/// A duration that does not run past the end of the clock moves a time on by just
/// that duration.
pub proof fn law_time_after(a: Time, seconds: u32, useconds: u32)
    requires
        a.wf(),
        useconds < USECS_PER_SEC,
        a.seconds + seconds < 0xFFFF_FFFF,
    ensures
        a.after(seconds, useconds).wf(),
        a.after(seconds, useconds).same_clock(a),
        a.after(seconds, useconds).total_useconds() == a.total_useconds() + seconds * USECS_PER_SEC
            + useconds,
{
}

/// The time base survives a trip over the wire, and no two share a number.
pub proof fn law_time_base_round_trip(b: TimeBase, v: u16)
    ensures
        TimeBase::of_code(b.code()) == Some(b),
        TimeBase::of_code(v) is Some ==> TimeBase::of_code(v)->0.code() == v,
{
}

/// A reading of a clock that only runs forward.
#[derive(Debug, Clone, Copy, PartialEq, Eq, Structural)]
pub struct RawTime {
    /// Seconds.
    pub seconds: u32,
    /// Nanoseconds.
    pub nanoseconds: u32,
}

impl RawTime {
    /// How many bytes a reading takes on the wire.
    pub const SERIALIZED_SIZE: usize = 8;

    /// The reading as one number of nanoseconds.
    pub open spec fn total(self) -> int {
        self.seconds * 1_000_000_000 + self.nanoseconds
    }

    /// The microseconds between two readings, whichever is later, as many as can be held.
    pub open spec fn microseconds_between(self, other: RawTime) -> u32 {
        let apart = if self.total() < other.total() {
            other.total() - self.total()
        } else {
            self.total() - other.total()
        };
        if apart / 1000 <= u32::MAX {
            (apart / 1000) as u32
        } else {
            u32::MAX
        }
    }

    /// The reading on the wire.
    pub open spec fn wire(self) -> Seq<u8> {
        bytes::be32(self.seconds) + bytes::be32(self.nanoseconds)
    }

    /// A reading of a given number of seconds and nanoseconds.
    pub fn from_parts(seconds: u32, nanoseconds: u32) -> (r: Self)
        ensures
            r == (RawTime { seconds, nanoseconds }),
    {
        RawTime { seconds, nanoseconds }
    }

    /// The microseconds between two readings, whichever is later, as many as can be held.
    pub fn get_diff_usec(&self, other: &RawTime) -> (r: u32)
        ensures
            r == self.microseconds_between(*other),
    {
        let a: u64 = self.seconds as u64 * 1_000_000_000 + self.nanoseconds as u64;
        let b: u64 = other.seconds as u64 * 1_000_000_000 + other.nanoseconds as u64;
        let apart: u64 = if a < b {
            b - a
        } else {
            a - b
        };
        let microseconds: u64 = apart / 1000;
        if microseconds <= u32::MAX as u64 {
            microseconds as u32
        } else {
            u32::MAX
        }
    }
}

/// It does not matter which of two readings the microseconds are counted from, and none
/// lie between a reading and itself.
pub proof fn law_raw_time_difference(a: RawTime, b: RawTime)
    ensures
        a.microseconds_between(b) == b.microseconds_between(a),
        a.microseconds_between(a) == 0,
{
}

/// The time after a duration is later by just that duration, on the same clock, whose
/// seconds start over at 32 bits.
pub proof fn law_time_after_wraps(a: Time, seconds: u32, useconds: u32)
    requires
        a.wf(),
        useconds < 1_000_000,
    ensures
        ({
            let b = a.after(seconds, useconds);
            let both = a.useconds + useconds;
            &&& b.base == a.base
            &&& b.context == a.context
            &&& b.useconds == if both < 1_000_000 {
                both
            } else {
                both - 1_000_000
            }
            &&& b.seconds == (a.seconds + seconds + if both < 1_000_000 {
                0int
            } else {
                1int
            }) % 0x1_0000_0000
        }),
{
}

/// Times on different clocks cannot be compared, and those on one clock can: by their
/// seconds, and where these are the same by their microseconds.
pub proof fn law_time_relation(a: Time, b: Time)
    ensures
        a.relation(b) == TimeComparison::Incomparable <==> a.base != b.base || a.context
            != b.context,
        a.base == b.base && a.context == b.context ==> {
            &&& a.relation(b) == TimeComparison::Lt <==> a.seconds < b.seconds || (a.seconds
                == b.seconds && a.useconds < b.useconds)
            &&& a.relation(b) == TimeComparison::Gt <==> a.seconds > b.seconds || (a.seconds
                == b.seconds && a.useconds > b.useconds)
            &&& a.relation(b) == TimeComparison::Eq <==> a.seconds == b.seconds && a.useconds
                == b.useconds
        },
{
}

/// The microseconds between two readings are the whole ones that the later reading is ahead
/// by; more than can be held shows as the most that can.
pub proof fn law_raw_time_microseconds(a: RawTime, b: RawTime, apart: int)
    requires
        0 <= apart,
        b.seconds * 1_000_000_000 + b.nanoseconds == a.seconds * 1_000_000_000 + a.nanoseconds
            + apart,
    ensures
        apart < 4_294_967_296_000 ==> {
            &&& a.microseconds_between(b) * 1000 <= apart
            &&& apart < a.microseconds_between(b) * 1000 + 1000
        },
        apart >= 4_294_967_296_000 ==> a.microseconds_between(b) == 0xFFFF_FFFF,
        b.microseconds_between(a) == a.microseconds_between(b),
{
}

/// The numbers of the time bases are those from 0 to 3, and the largest for any base.
pub proof fn law_time_base_numbers(v: u16)
    ensures
        TimeBase::of_code(v) is Some <==> v <= 3 || v == 0xFFFF,
        v == 0 <==> TimeBase::of_code(v) == Some(TimeBase::TbNone),
        v == 1 <==> TimeBase::of_code(v) == Some(TimeBase::TbProcTime),
        v == 2 <==> TimeBase::of_code(v) == Some(TimeBase::TbWorkstationTime),
        v == 3 <==> TimeBase::of_code(v) == Some(TimeBase::TbScTime),
        v == 0xFFFF <==> TimeBase::of_code(v) == Some(TimeBase::TbDontCare),
{
}

} // verus!
