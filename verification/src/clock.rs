//! Time values as plain integers: a span (`Duration`) and a point on the
//! wall clock (`Instant`), both counted in nanoseconds. All time-dependent
//! logic of the library takes its "now" as an `Instant` argument; only
//! `Instant::now` reads the system clock.

use vstd::prelude::*;

verus! {

/// Largest span representable: `u64::MAX` seconds plus 999_999_999 ns.
pub open spec fn max_duration_nanos() -> int {
    18_446_744_073_709_551_615_999_999_999int
}

/// The exec value of `max_duration_nanos`.
pub const MAX_DURATION_NANOS: u128 = 18_446_744_073_709_551_615_999_999_999;

/// Nanoseconds per second.
pub const NANOS_PER_SEC: u128 = 1_000_000_000;

/// A span of time, in nanoseconds.
#[derive(Clone, Copy, Debug, PartialEq, Eq, PartialOrd, Ord, Hash)]
pub struct Duration {
    nanos: u128,
}

impl View for Duration {
    type V = int;

    closed spec fn view(&self) -> int {
        self.nanos as int
    }
}

impl Duration {
    /// A span of `secs` whole seconds.
    pub fn from_secs(secs: u64) -> (d: Duration)
        ensures
            d@ == secs as int * 1_000_000_000,
    {
        Duration { nanos: secs as u128 * NANOS_PER_SEC }
    }

    /// A span of `millis` milliseconds.
    pub fn from_millis(millis: u64) -> (d: Duration)
        ensures
            d@ == millis as int * 1_000_000,
    {
        Duration { nanos: millis as u128 * 1_000_000 }
    }

    /// A span of `nanos` nanoseconds.
    pub fn from_nanos(nanos: u128) -> (d: Duration)
        ensures
            d@ == nanos as int,
    {
        Duration { nanos }
    }

    /// The zero span.
    pub fn zero() -> (d: Duration)
        ensures
            d@ == 0,
    {
        Duration { nanos: 0 }
    }

    /// The span in nanoseconds.
    pub fn as_nanos(&self) -> (n: u128)
        ensures
            n as int == self@,
    {
        self.nanos
    }

    /// The span in whole seconds (rounded down).
    pub fn as_secs(&self) -> (s: u128)
        ensures
            s as int == self@ / 1_000_000_000,
    {
        self.nanos / NANOS_PER_SEC
    }

    /// `self <= other` as spans.
    pub fn le(&self, other: &Duration) -> (b: bool)
        ensures
            b == (self@ <= other@),
    {
        self.nanos <= other.nanos
    }

    /// The smaller of two spans.
    pub fn min(self, other: Duration) -> (d: Duration)
        ensures
            d@ == if self@ <= other@ { self@ } else { other@ },
    {
        if self.nanos <= other.nanos {
            self
        } else {
            other
        }
    }

    /// `self * factor`, saturating at the largest representable span
    /// (`max_duration_nanos`) when `self` is itself within that range.
    pub fn saturating_mul(self, factor: u32) -> (d: Duration)
        ensures
            self@ <= max_duration_nanos() ==> d@ == if self@ * factor <= max_duration_nanos() {
                self@ * factor
            } else {
                max_duration_nanos()
            },
    {
        if factor == 0 {
            return Duration { nanos: 0 };
        }
        if self.nanos > MAX_DURATION_NANOS / (factor as u128) {
            proof {
                assert(self.nanos as int * factor as int > max_duration_nanos()) by (nonlinear_arith)
                    requires
                        self.nanos as int > MAX_DURATION_NANOS as int / factor as int,
                        factor > 0,
                        MAX_DURATION_NANOS as int == max_duration_nanos(),
                ;
            }
            Duration { nanos: MAX_DURATION_NANOS }
        } else {
            proof {
                assert(self.nanos as int * factor as int <= max_duration_nanos()) by (nonlinear_arith)
                    requires
                        self.nanos as int <= MAX_DURATION_NANOS as int / factor as int,
                        factor > 0,
                        MAX_DURATION_NANOS as int == max_duration_nanos(),
                ;
            }
            Duration { nanos: self.nanos * (factor as u128) }
        }
    }
}

/// A point on the wall clock: nanoseconds since the Unix epoch.
#[derive(Clone, Copy, Debug, PartialEq, Eq, PartialOrd, Ord, Hash)]
pub struct Instant {
    nanos: u128,
}

impl View for Instant {
    type V = int;

    closed spec fn view(&self) -> int {
        self.nanos as int
    }
}

/// Reads the system clock: nanoseconds since the Unix epoch, or `None` when
/// the clock stands before the epoch.
///
/// Calls `std::time::SystemTime::now` and measures it against `UNIX_EPOCH`.
/// Nothing is stated of the value: it depends on the time of the call.
#[verifier::external_body]
pub(crate) fn unix_time_nanos() -> (n: Option<u128>) {
    match std::time::SystemTime::now().duration_since(std::time::UNIX_EPOCH) {
        Ok(d) => Some(d.as_nanos()),
        Err(_) => None,
    }
}

impl Instant {
    /// The current time (see `from_reading`).
    pub fn now() -> (t: Instant) {
        Instant::from_reading(unix_time_nanos())
    }

    /// The instant of a clock reading in nanoseconds since the epoch; the
    /// epoch itself when the clock could not be read (it stands earlier).
    pub fn from_reading(reading: Option<u128>) -> (t: Instant)
        ensures
            t@ == match reading {
                Some(n) => n as int,
                None => 0,
            },
    {
        match reading {
            Some(n) => Instant { nanos: n },
            None => Instant { nanos: 0 },
        }
    }

    /// The instant `nanos` nanoseconds after the epoch.
    pub fn from_nanos(nanos: u128) -> (t: Instant)
        ensures
            t@ == nanos as int,
    {
        Instant { nanos }
    }

    /// Nanoseconds since the epoch.
    pub fn as_nanos(&self) -> (n: u128)
        ensures
            n as int == self@,
    {
        self.nanos
    }

    /// The instant `d` later than `self`.
    pub fn plus(self, d: Duration) -> (t: Instant)
        requires
            self@ + d@ <= u128::MAX,
        ensures
            t@ == self@ + d@,
    {
        Instant { nanos: self.nanos + d.as_nanos() }
    }

    /// Time elapsed from `earlier` to `self`, or zero if `earlier` is later.
    pub fn duration_since(&self, earlier: Instant) -> (d: Duration)
        ensures
            d@ == elapsed(earlier@, self@),
    {
        if self.nanos >= earlier.nanos {
            Duration::from_nanos(self.nanos - earlier.nanos)
        } else {
            Duration::zero()
        }
    }
}

/// Time from `earlier` to `later`, clamped at zero.
pub open spec fn elapsed(earlier: int, later: int) -> int {
    if later >= earlier {
        later - earlier
    } else {
        0
    }
}

} // verus!
