//! Readings of the monotonic clock, as whole nanoseconds since a clock was started. Every
//! reading depends on the time at which it is taken, so nothing is stated of its value.
use vstd::prelude::*;
use std::time::{Duration, Instant};

verus! {

/// `std::time::Instant`, carried through the library as an opaque value.
#[verifier::external_type_specification]
#[verifier::external_body]
pub struct ExInstant(Instant);

/// Calls `Instant::now`: the current reading of the monotonic clock. Nothing is stated of it.
#[verifier::external_body]
fn clock_now() -> (now: Instant) {
    Instant::now()
}

/// Calls `Instant::elapsed`: the time since `start`, read from the clock now (zero if the clock
/// reads earlier than `start`; the method does not panic). Nothing is stated of the duration.
#[verifier::external_body]
fn time_since(start: &Instant) -> (d: Duration)
    no_unwind
{
    start.elapsed()
}

/// Calls `Duration::as_nanos`: the whole nanoseconds in `d` (the method does not panic).
/// `Duration` is opaque here, so nothing is stated of the number.
#[verifier::external_body]
fn whole_nanos(d: &Duration) -> (n: u128)
    no_unwind
{
    d.as_nanos()
}

/// A monotonic clock whose readings count nanoseconds from the moment it was started. It
/// remembers its latest reading and never reads earlier than that.
#[derive(Debug)]
pub struct Clock {
    origin: Instant,
    latest: u128,
}

impl Clock {
    /// The clock's latest reading (zero before the first).
    pub closed spec fn latest(&self) -> u128 {
        self.latest
    }

    /// A clock started now: its readings count from this moment.
    pub fn start() -> (c: Clock)
        ensures
            c.latest() == 0,
    {
        Clock { origin: clock_now(), latest: 0 }
    }

    /// The whole nanoseconds from the clock's start to now. Readings never go back: the monotonic
    /// clock does not, and a reading below the latest one is taken as the latest one.
    pub fn reading(&mut self) -> (t: u128)
        ensures
            t >= old(self).latest(),
            final(self).latest() == t,
        no_unwind
    {
        let raw = whole_nanos(&time_since(&self.origin));
        if raw > self.latest {
            self.latest = raw;
        }
        self.latest
    }
}

} // verus!
