//! Time: a monotonic clock that counts nanoseconds from its start, and the wall clock in seconds.
//!
//! What a clock reads depends on when it is read, so nothing is promised of a reading itself: only
//! of what is made of it. Every decision that depends on time is a function of its own that takes
//! the time as an argument.

use std::time::{Duration, Instant, SystemTime, SystemTimeError};
use vstd::prelude::*;

verus! {

/// `std::time::Instant`, a reading of the monotonic clock.
#[verifier::external_type_specification]
#[verifier::external_body]
pub struct ExInstant(std::time::Instant);

/// `std::time::SystemTime`, a reading of the wall clock.
#[verifier::external_type_specification]
#[verifier::external_body]
pub struct ExSystemTime(std::time::SystemTime);

/// `std::time::SystemTimeError`, what comes back when the wall clock stands before the epoch.
#[verifier::external_type_specification]
#[verifier::external_body]
pub struct ExSystemTimeError(std::time::SystemTimeError);

/// The length of a duration in nanoseconds.
pub uninterp spec fn duration_nanos(d: Duration) -> u128;

/// How much later one reading of the monotonic clock is than another.
pub uninterp spec fn span_between(later: Instant, earlier: Instant) -> Duration;

/// How much later a reading of the wall clock is than the Unix epoch; nothing if it is earlier.
pub uninterp spec fn span_since_epoch(t: SystemTime) -> Option<Duration>;

/// `Instant::now` reads the monotonic clock. What it reads depends on when it is called.
pub assume_specification[ Instant::now ]() -> Instant;

/// `Instant::saturating_duration_since` is how much later the first reading is than the second. It
/// is a function of the two readings.
pub assume_specification[ Instant::saturating_duration_since ](
    later: &Instant,
    earlier: Instant,
) -> (d: Duration)
    ensures
        d == span_between(*later, earlier),
;

/// `SystemTime::now` reads the wall clock. What it reads depends on when it is called.
pub assume_specification[ SystemTime::now ]() -> SystemTime;

/// `Duration::as_nanos` is the length in nanoseconds.
pub assume_specification[ Duration::as_nanos ](d: &Duration) -> (n: u128)
    ensures
        n == duration_nanos(*d),
;

/// `Duration::as_secs` is the number of whole seconds in the length.
pub assume_specification[ Duration::as_secs ](d: &Duration) -> (n: u64)
    ensures
        n == duration_nanos(*d) / 1_000_000_000,
;

/// `SystemTime::duration_since` from the Unix epoch, a function of the reading; an error if the
/// reading is earlier.
#[verifier::external_body]
fn since_epoch(t: SystemTime) -> (r: Result<Duration, SystemTimeError>)
    ensures
        match r {
            Ok(d) => span_since_epoch(t) == Some(d),
            Err(_) => span_since_epoch(t) is None,
        },
{
    t.duration_since(SystemTime::UNIX_EPOCH)
}

/// A number of nanoseconds that holds so many seconds.
pub open spec fn seconds(n: nat) -> nat {
    n * 1_000_000_000
}

/// A length of time in nanoseconds.
#[derive(Debug, Clone, Copy, PartialEq, Eq, Structural)]
pub struct Span {
    pub nanos: u128,
}

impl Span {
    /// So many whole seconds.
    pub fn from_secs(secs: u64) -> (span: Span)
        ensures
            span.nanos == seconds(secs as nat),
    {
        Span { nanos: secs as u128 * 1_000_000_000 }
    }
}

/// How much later `now` is than `earlier`, zero if it is not later.
pub open spec fn age(now: u128, earlier: u128) -> nat {
    if now >= earlier {
        (now - earlier) as nat
    } else {
        0
    }
}

/// How much later `now` is than `earlier`, zero if it is not later.
pub fn elapsed_since(now: u128, earlier: u128) -> (d: u128)
    ensures
        d == age(now, earlier),
{
    if now >= earlier {
        now - earlier
    } else {
        0
    }
}

/// A monotonic clock that counts nanoseconds from its start.
#[derive(Debug, Clone, Copy)]
pub struct Clock {
    origin: Instant,
}

impl Clock {
    /// The reading at which the clock was started.
    pub closed spec fn origin(&self) -> Instant {
        self.origin
    }

    /// The time on the clock at a reading: nanoseconds from the clock's start to the reading.
    pub open spec fn time_at(&self, reading: Instant) -> u128 {
        duration_nanos(span_between(reading, self.origin()))
    }

    /// A clock that was started at a reading.
    pub fn started_at(reading: Instant) -> (c: Clock)
        ensures
            c.origin() == reading,
    {
        Clock { origin: reading }
    }

    /// Starts a clock.
    pub fn start() -> Clock {
        Clock::started_at(Instant::now())
    }

    /// The time on the clock at a reading.
    pub fn at(&self, reading: Instant) -> (n: u128)
        ensures
            n == self.time_at(reading),
    {
        reading.saturating_duration_since(self.origin).as_nanos()
    }

    /// The time on the clock now: nanoseconds from the clock's start to a reading that is taken in
    /// this call.
    pub fn now(&self) -> (n: u128)
        ensures
            exists|reading: Instant| n == #[trigger] self.time_at(reading),
    {
        self.at(Instant::now())
    }
}

/// The whole seconds from the Unix epoch to a reading of the wall clock; 0 where the reading is
/// earlier.
pub open spec fn unix_seconds(reading: SystemTime) -> int {
    match span_since_epoch(reading) {
        Some(d) => duration_nanos(d) as int / 1_000_000_000,
        None => 0,
    }
}

/// The whole seconds from the Unix epoch to a reading of the wall clock.
pub fn unix_seconds_at(reading: SystemTime) -> (n: u64)
    ensures
        n == unix_seconds(reading),
{
    match since_epoch(reading) {
        Ok(d) => d.as_secs(),
        Err(_) => 0,
    }
}

/// The whole seconds since the Unix epoch, by a reading that is taken in this call; 0 where the wall
/// clock stands before it.
pub fn unix_now() -> (n: u64)
    ensures
        exists|reading: SystemTime| n == #[trigger] unix_seconds(reading),
{
    unix_seconds_at(SystemTime::now())
}

/// A time is so much later than another as their difference; not at all, if it is earlier. A second is
/// a thousand million nanoseconds.
pub proof fn law_times_are_counted_in_nanoseconds(now: u128, earlier: u128, n: nat)
    ensures
        now >= earlier ==> earlier + age(now, earlier) == now,
        now <= earlier ==> age(now, earlier) == 0,
        seconds(n + 1) == seconds(n) + 1_000_000_000,
        seconds(0) == 0,
{
}

/// The seconds since the Unix epoch are the whole seconds of the span from it; none before it.
pub proof fn law_unix_seconds_are_whole_seconds(reading: SystemTime)
    ensures
        span_since_epoch(reading) is None ==> unix_seconds(reading) == 0,
        span_since_epoch(reading) matches Some(d) ==> unix_seconds(reading) * 1_000_000_000
            <= duration_nanos(d) < (unix_seconds(reading) + 1) * 1_000_000_000,
{
}

/// The time on a clock is the span from its start to the reading, in nanoseconds.
pub proof fn law_clocks_count_from_their_start(clock: Clock, reading: Instant)
    ensures
        clock.time_at(reading) == duration_nanos(span_between(reading, clock.origin())),
{
}

} // verus!
