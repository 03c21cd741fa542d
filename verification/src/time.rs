//! Points in time as plain numbers, and the tick interval.

use vstd::prelude::*;

verus! {

/// Nanoseconds in one second.
pub const NANOS_PER_SECOND: u32 = 1_000_000_000;

/// Length of one tick in nanoseconds: a quarter of a second.
pub const TICK_INTERVAL_NANOS: u64 = 250_000_000;

/// A point in time: whole seconds since the Unix epoch and the nanoseconds
/// beyond them.
#[derive(Clone, Copy, Debug, PartialEq, Eq, Structural)]
pub struct Timestamp {
    pub secs: i64,
    pub nanos: u32,
}

impl Timestamp {
    /// Nanoseconds since the epoch.
    pub open spec fn total_nanos(self) -> int {
        self.secs * 1_000_000_000 + self.nanos
    }

    /// Whether `self` comes before `other` in the order by seconds, then
    /// nanoseconds.
    pub open spec fn precedes(self, other: Timestamp) -> bool {
        self.secs < other.secs || (self.secs == other.secs && self.nanos < other.nanos)
    }

    /// The time `millis` milliseconds after the epoch (before it, if
    /// negative).
    pub fn from_millis(millis: i64) -> (time: Timestamp)
        ensures
            time.total_nanos() == millis * 1_000_000,
            time.nanos < NANOS_PER_SECOND,
    {
        if millis >= 0 {
            let secs: i64 = millis / 1000;
            let rest: i64 = millis % 1000;
            Timestamp { secs, nanos: (rest as u32) * 1_000_000 }
        } else {
            let below: i64 = -(millis + 1);
            let secs: i64 = -(below / 1000) - 1;
            let rest: i64 = 999 - below % 1000;
            Timestamp { secs, nanos: (rest as u32) * 1_000_000 }
        }
    }

    /// The time one millisecond after `self`, with a full second of
    /// nanoseconds carried over to the seconds.
    pub open spec fn millisecond_after(self) -> Timestamp {
        if self.nanos + 1_000_000 < NANOS_PER_SECOND {
            Timestamp { secs: self.secs, nanos: (self.nanos + 1_000_000) as u32 }
        } else {
            Timestamp {
                secs: (self.secs + 1) as i64,
                nanos: (self.nanos + 1_000_000 - NANOS_PER_SECOND) as u32,
            }
        }
    }

    /// The time one millisecond after `self`, or `None` where the seconds
    /// cannot count that far.
    pub fn millisecond_later(&self) -> (later: Option<Timestamp>)
        ensures
            later == if self.nanos + 1_000_000 >= NANOS_PER_SECOND && self.secs == i64::MAX {
                None
            } else {
                Some(self.millisecond_after())
            },
            later matches Some(time) ==> time.total_nanos() == self.total_nanos() + 1_000_000,
    {
        let nanos: u64 = self.nanos as u64 + 1_000_000;
        if nanos < NANOS_PER_SECOND as u64 {
            Some(Timestamp { secs: self.secs, nanos: nanos as u32 })
        } else if self.secs == i64::MAX {
            None
        } else {
            Some(Timestamp { secs: self.secs + 1, nanos: (nanos - NANOS_PER_SECOND as u64) as u32 })
        }
    }

    /// Whether `self` comes before `other`.
    pub fn is_before(&self, other: &Timestamp) -> (before: bool)
        ensures
            before == self.precedes(*other),
    {
        self.secs < other.secs || (self.secs == other.secs && self.nanos < other.nanos)
    }
}

/// Whether more than `limit` seconds have passed from `earlier` to
/// `later`, fractions of a second counted.
pub fn more_than_seconds_between(earlier: &Timestamp, later: &Timestamp, limit: u32) -> (more: bool)
    ensures
        more == (later.total_nanos() - earlier.total_nanos() > limit * 1_000_000_000),
{
    let nanos: i128 = (later.secs as i128 - earlier.secs as i128) * 1_000_000_000 + (
    later.nanos as i128 - earlier.nanos as i128);
    nanos > (limit as i128) * 1_000_000_000
}

/// Time left in the current tick once `elapsed_nanos` nanoseconds of it
/// have passed: nothing when the tick is over.
pub open spec fn tick_remainder(elapsed_nanos: int) -> int {
    if elapsed_nanos < TICK_INTERVAL_NANOS {
        TICK_INTERVAL_NANOS - elapsed_nanos
    } else {
        0
    }
}

/// How long the loop may wait for input before the tick boundary, given
/// the time since the previous boundary.
pub fn poll_budget(elapsed_nanos: u64) -> (budget: u64)
    ensures
        budget == tick_remainder(elapsed_nanos as int),
{
    if elapsed_nanos < TICK_INTERVAL_NANOS {
        TICK_INTERVAL_NANOS - elapsed_nanos
    } else {
        0
    }
}

/// Whether a tick boundary has been reached, given the time since the
/// previous boundary.
pub fn tick_due(elapsed_nanos: u64) -> (due: bool)
    ensures
        due == (elapsed_nanos >= TICK_INTERVAL_NANOS),
{
    elapsed_nanos >= TICK_INTERVAL_NANOS
}

} // verus!
