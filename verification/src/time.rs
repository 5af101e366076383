//! Durations, the monotonic clock and the wall clock.
use std::time::Instant;
use vstd::prelude::*;

verus! {

/// Nanoseconds in one second.
pub const NANOS_PER_SEC: u128 = 1_000_000_000;

/// No span of time is longer than this many nanoseconds.
pub open spec fn max_nanos() -> nat {
    (u64::MAX * 1_000_000_000 + u32::MAX) as nat
}

/// A span of time.
#[derive(Clone, Copy, Debug, PartialEq, Eq, PartialOrd, Ord, Hash, Structural)]
pub struct Duration {
    pub secs: u64,
    pub subsec_nanos: u32,
}

impl Duration {
    /// The length of the span in nanoseconds.
    pub open spec fn nanos(self) -> nat {
        self.secs as nat * 1_000_000_000 + self.subsec_nanos as nat
    }

    pub fn from_secs(secs: u64) -> (r: Duration)
        ensures
            r == (Duration { secs, subsec_nanos: 0 }),
    {
        Duration { secs, subsec_nanos: 0 }
    }

    pub fn from_millis(millis: u64) -> (r: Duration)
        ensures
            r.secs == millis / 1000,
            r.subsec_nanos == (millis % 1000) * 1_000_000,
            r.nanos() == millis * 1_000_000,
    {
        let subsec_nanos: u32 = (millis % 1000) as u32 * 1_000_000;
        Duration { secs: millis / 1000, subsec_nanos }
    }

    pub fn as_nanos(&self) -> (r: u128)
        ensures
            r == self.nanos(),
    {
        self.secs as u128 * NANOS_PER_SEC + self.subsec_nanos as u128
    }
}

/// `std::time::Instant`, which only a clock looks into.
#[verifier::external_type_specification]
#[verifier::external_body]
pub struct ExInstant(Instant);

/// `std::time::Instant::now`. Nothing is claimed of the instant.
pub assume_specification[ Instant::now ]() -> Instant;

/// `std::time::Instant::elapsed`, as a [`Duration`] of this crate. Nothing is claimed of what a
/// clock shows: two readings need not even be ordered.
#[verifier::external_body]
fn elapsed_since(start: &Instant) -> Duration {
    let elapsed = start.elapsed();
    Duration { secs: elapsed.as_secs(), subsec_nanos: elapsed.subsec_nanos() }
}

/// A monotonic clock, which shows the nanoseconds since it was made.
pub struct Clock {
    start: Instant,
}

impl Clock {
    /// When the clock was started.
    pub closed spec fn started(&self) -> Instant {
        self.start
    }

    /// `Instant::elapsed` answered `elapsed` for the start of this clock.
    pub closed spec fn showed(&self, elapsed: Duration) -> bool {
        call_ensures(elapsed_since, (&self.start,), elapsed)
    }

    /// The clock was started at what `Instant::now` answered.
    pub open spec fn started_now(&self) -> bool {
        call_ensures(Instant::now, (), self.started())
    }

    /// The clock showed `now`, in nanoseconds.
    pub open spec fn shows(&self, now: u128) -> bool {
        exists|elapsed: Duration| #[trigger] self.showed(elapsed) && now == elapsed.nanos()
    }

    /// A clock that starts now: at what `Instant::now` answers.
    pub fn new() -> (r: Clock)
        ensures
            r.started_now(),
    {
        Clock { start: Instant::now() }
    }

    /// What the clock shows, in nanoseconds: what `Instant::elapsed` answers for its start.
    pub fn reading(&self) -> (r: u128)
        ensures
            self.shows(r),
            r <= max_nanos(),
    {
        let elapsed = elapsed_since(&self.start);
        assert(self.showed(elapsed));
        elapsed.as_nanos()
    }
}

/// The wall clock showed `now`: `chrono::Utc::now` answered it.
pub closed spec fn utc_showed(now: Timestamp) -> bool {
    call_ensures(utc_now, (), now)
}

/// A point in time: the seconds since the start of 1970 in UTC, and the nanoseconds past them.
#[derive(Clone, Copy, Debug, PartialEq, Eq, PartialOrd, Ord, Hash, Structural)]
pub struct Timestamp {
    pub secs: i64,
    pub subsec_nanos: u32,
}

/// `chrono::Utc::now`, as the pair of `timestamp` and `timestamp_subsec_nanos`. Nothing is
/// claimed of what the wall clock shows. It panics where the system clock is set before 1970.
#[verifier::external_body]
fn utc_now() -> Timestamp {
    let now = chrono::Utc::now();
    Timestamp { secs: now.timestamp(), subsec_nanos: now.timestamp_subsec_nanos() }
}

/// What the wall clock shows.
pub(crate) fn wall_clock() -> (now: Timestamp)
    ensures
        utc_showed(now),
{
    utc_now()
}

/// A second has a thousand million nanoseconds.
pub proof fn durations_are_counted_in_nanoseconds(a: Duration, b: Duration)
    ensures
        a.nanos() == a.secs * 1_000_000_000 + a.subsec_nanos,
        a.nanos() - b.nanos() == (a.secs - b.secs) * 1_000_000_000 + (a.subsec_nanos
            - b.subsec_nanos),
{
}

} // verus!
