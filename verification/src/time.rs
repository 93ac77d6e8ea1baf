//! Points in time, spans between them, and the clock that caches read.
use vstd::prelude::*;

verus! {

/// The last instant that can be represented, in nanoseconds: the end of the second numbered
/// `i64::MAX`, where the platform's monotonic clock ends too.
pub const LAST_INSTANT_NANOS: u128 = 9_223_372_036_854_775_807_999_999_999;

/// A span of time in whole nanoseconds.
///
/// A zero span stands for "no limit" wherever a cache takes it as a time to live.
#[derive(Clone, Copy, Debug, PartialEq, Eq, PartialOrd, Ord, Hash, Structural)]
pub struct Duration {
    pub nanos: u128,
}

impl Duration {
    /// The empty span.
    pub fn zero() -> (d: Duration)
        ensures
            d.nanos == 0,
    {
        Duration { nanos: 0 }
    }

    /// The longest span that a count of `u64` seconds and a fraction of one can hold.
    pub fn longest() -> (d: Duration)
        ensures
            d.nanos == u64::MAX * 1_000_000_000 + 999_999_999,
    {
        Duration { nanos: 18_446_744_073_709_551_615_999_999_999 }
    }

    pub fn from_secs(secs: u64) -> (d: Duration)
        ensures
            d.nanos == secs * 1_000_000_000,
    {
        Duration { nanos: secs as u128 * 1_000_000_000 }
    }

    pub fn from_millis(millis: u64) -> (d: Duration)
        ensures
            d.nanos == millis * 1_000_000,
    {
        Duration { nanos: millis as u128 * 1_000_000 }
    }

    pub fn from_nanos(nanos: u64) -> (d: Duration)
        ensures
            d.nanos == nanos,
    {
        Duration { nanos: nanos as u128 }
    }

    /// Whether the span is empty.
    pub fn is_zero(&self) -> (b: bool)
        ensures
            b == (self.nanos == 0),
    {
        self.nanos == 0
    }

    /// The span in nanoseconds.
    pub fn as_nanos(&self) -> (n: u128)
        ensures
            n == self.nanos,
    {
        self.nanos
    }
}

/// A point in time, in nanoseconds after the origin of the [`Clock`] that read it.
///
/// Instants of one clock are ordered by their nanoseconds. Instants of two clocks with
/// different origins have nothing to say to each other.
#[derive(Clone, Copy, Debug, PartialEq, Eq, PartialOrd, Ord, Hash, Structural)]
pub struct Instant {
    pub nanos: u128,
}

impl Instant {
    /// The instant `d` after this one, `None` where it lies beyond [`LAST_INSTANT_NANOS`].
    pub open spec fn after(self, d: Duration) -> Option<Instant> {
        if self.nanos + d.nanos <= LAST_INSTANT_NANOS {
            Some(Instant { nanos: (self.nanos + d.nanos) as u128 })
        } else {
            None
        }
    }

    pub fn checked_add(&self, d: Duration) -> (later: Option<Instant>)
        ensures
            later == self.after(d),
    {
        match self.nanos.checked_add(d.nanos) {
            Some(nanos) if nanos <= LAST_INSTANT_NANOS => Some(Instant { nanos }),
            _ => None,
        }
    }

    /// The instant `d` before this one, `None` where it lies before the clock's origin.
    pub fn checked_sub(&self, d: Duration) -> (earlier: Option<Instant>)
        ensures
            earlier == if d.nanos <= self.nanos {
                Some(Instant { nanos: (self.nanos - d.nanos) as u128 })
            } else {
                None
            },
    {
        if d.nanos <= self.nanos {
            Some(Instant { nanos: self.nanos - d.nanos })
        } else {
            None
        }
    }
}

#[verifier::external_type_specification]
#[verifier::external_body]
pub struct ExMonotonicInstant(std::time::Instant);

/// `std::time::Instant::now`. Nothing is claimed of the reading.
#[verifier::external_body]
fn monotonic_now() -> (t: std::time::Instant) {
    std::time::Instant::now()
}

/// `std::time::Instant::elapsed`, in nanoseconds. Nothing is claimed of the reading: it depends
/// on when the call is made.
#[verifier::external_body]
fn nanos_since(origin: &std::time::Instant) -> (nanos: u128) {
    origin.elapsed().as_nanos()
}

/// A monotonic clock: it counts from the moment it was started.
///
/// A copy of a clock has the same origin, so a cache that takes over entries of another one
/// takes over its clock too.
#[derive(Clone, Copy, Debug)]
pub struct Clock {
    origin: std::time::Instant,
}

impl Clock {
    /// Whether the origin is a reading of the monotonic clock.
    pub closed spec fn started(self) -> bool {
        call_ensures(monotonic_now, (), self.origin)
    }

    /// Whether `now` is a reading of this clock: the time that has passed since its origin.
    pub closed spec fn shows(self, now: Instant) -> bool {
        call_ensures(nanos_since, (&self.origin,), now.nanos)
    }

    /// What a clock shows is the time since its origin, in nanoseconds, as it is.
    proof fn law_shows_the_time_since_its_origin(self, now: Instant)
        ensures
            self.shows(now) <==> call_ensures(nanos_since, (&self.origin,), now.nanos),
            self.started() <==> call_ensures(monotonic_now, (), self.origin),
    {
    }

    /// A clock whose origin is the moment of the call.
    pub fn start() -> (c: Clock)
        ensures
            c.started(),
    {
        Clock { origin: monotonic_now() }
    }

    /// The current instant.
    pub fn now(&self) -> (now: Instant)
        ensures
            self.shows(now),
    {
        Instant { nanos: nanos_since(&self.origin) }
    }

    /// The current instant, read when there is a `value`: after it was made.
    pub fn now_after<T>(&self, _value: &T) -> (now: Instant)
        ensures
            self.shows(now),
    {
        self.now()
    }

    /// Whether `now` is a reading of this clock that was taken when there was a `value`.
    pub open spec fn shows_after<T>(self, value: T, now: Instant) -> bool {
        self.shows(now) && call_ensures(Clock::now_after::<T>, (&self, &value), now)
    }
}

/// When something is judged: at a given instant, or at the one that a clock shows when it is.
#[derive(Clone, Copy, Debug)]
pub enum Moment {
    At(Instant),
    Present(Clock),
}

impl Moment {
    /// Whether `now` can be the instant that is meant.
    pub open spec fn allows(self, now: Instant) -> bool {
        match self {
            Moment::At(t) => now == t,
            Moment::Present(clock) => clock.shows(now),
        }
    }

    pub fn now(&self) -> (now: Instant)
        ensures
            self.allows(now),
    {
        match self {
            Moment::At(now) => *now,
            Moment::Present(clock) => clock.now(),
        }
    }
}

} // verus!
