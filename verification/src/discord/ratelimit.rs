//! Token-bucket rate limiter: `n` messages per window, refilled
//! continuously. Token amounts are kept exactly as integers: one token is
//! `window` units (the window's length in nanoseconds) and each elapsed
//! nanosecond adds `n` units, so the bucket refills `n` tokens per window.

use vstd::prelude::*;
use crate::clock::{elapsed, max_duration_nanos, Duration, Instant};

verus! {

/// The abstract state of a limiter.
pub struct LimiterView {
    /// Tokens per window (the bucket's capacity), at least 1.
    pub rate: nat,
    /// Window length in nanoseconds: the number of units in one token.
    pub unit: nat,
    /// Current content, in units.
    pub units: nat,
    /// When the bucket was last refilled.
    pub last: int,
}

/// Capacity of the bucket in units.
pub open spec fn capacity(l: LimiterView) -> nat {
    l.rate * l.unit
}

/// The bucket refilled at `now`: `rate` units per elapsed nanosecond, up to
/// capacity.
pub open spec fn refilled(l: LimiterView, now: int) -> LimiterView {
    let grown = l.units + elapsed(l.last, now) * l.rate;
    LimiterView {
        units: if grown <= capacity(l) {
            grown as nat
        } else {
            capacity(l)
        },
        last: now,
        ..l
    }
}

/// A non-blocking attempt at `now`: refill, then take one token if there is
/// one. Returns the new state and whether a token was taken.
pub open spec fn acquire_step(l: LimiterView, now: int) -> (LimiterView, bool) {
    let r = refilled(l, now);
    if r.units >= r.unit {
        (LimiterView { units: (r.units - r.unit) as nat, ..r }, true)
    } else {
        (r, false)
    }
}

/// Token bucket for a webhook or chat.
pub struct RateLimiter {
    rate: u128,
    unit: u128,
    units: u128,
    last: Instant,
}

impl View for RateLimiter {
    type V = LimiterView;

    closed spec fn view(&self) -> LimiterView {
        LimiterView {
            rate: self.rate as nat,
            unit: self.unit as nat,
            units: self.units as nat,
            last: self.last@,
        }
    }
}

impl RateLimiter {
    /// The bucket holds at most its capacity, which fits the integers used.
    pub closed spec fn wf(&self) -> bool {
        &&& 1 <= self.rate <= u32::MAX
        &&& 1 <= self.unit <= max_duration_nanos()
        &&& self.units <= self.rate * self.unit
    }

    /// `n` messages per minute (at least 1), starting full (reads the clock).
    pub fn per_minute(n: u32) -> (l: RateLimiter)
        ensures
            l.wf(),
            l@.rate == if n >= 1 {
                n as nat
            } else {
                1
            },
            l@.unit == 60_000_000_000,
            l@.units == capacity(l@),
    {
        RateLimiter::per_window_at(n, Duration::from_secs(60), Instant::now())
    }

    /// `n` messages per `window` (at least 1 message, window non-zero),
    /// starting full at `now`.
    pub fn per_window_at(n: u32, window: Duration, now: Instant) -> (l: RateLimiter)
        requires
            1 <= window@ <= max_duration_nanos(),
        ensures
            l.wf(),
            l@ == (LimiterView {
                rate: if n >= 1 {
                    n as nat
                } else {
                    1
                },
                unit: window@ as nat,
                units: capacity(l@),
                last: now@,
            }),
    {
        let rate: u128 = if n >= 1 {
            n as u128
        } else {
            1
        };
        let unit = window.as_nanos();
        proof {
            assert(rate * unit <= 0xFFFF_FFFF * max_duration_nanos()) by (nonlinear_arith)
                requires
                    1 <= rate <= 0xFFFF_FFFF,
                    1 <= unit <= max_duration_nanos(),
            ;
        }
        RateLimiter { rate, unit, units: rate * unit, last: now }
    }

    fn refill_at(&mut self, now: Instant)
        requires
            old(self).wf(),
        ensures
            final(self).wf(),
            final(self)@ == refilled(old(self)@, now@),
    {
        let dt = now.duration_since(self.last).as_nanos();
        proof {
            assert(self.rate * self.unit <= 0xFFFF_FFFF * max_duration_nanos()) by (nonlinear_arith)
                requires
                    1 <= self.rate <= 0xFFFF_FFFF,
                    1 <= self.unit <= max_duration_nanos(),
            ;
        }
        let cap = self.rate * self.unit;
        let room = cap - self.units;
        if dt > room / self.rate {
            proof {
                assert(dt * self.rate > room) by (nonlinear_arith)
                    requires
                        dt > room / self.rate,
                        self.rate >= 1,
                        dt >= 0,
                        room >= 0,
                ;
            }
            self.units = cap;
        } else {
            proof {
                assert(dt * self.rate <= room) by (nonlinear_arith)
                    requires
                        dt <= room / self.rate,
                        self.rate >= 1,
                        dt >= 0,
                        room >= 0,
                ;
            }
            self.units = self.units + dt * self.rate;
        }
        self.last = now;
    }

    /// Non-blocking attempt at `now`; consumes a token if available.
    pub fn try_acquire_at(&mut self, now: Instant) -> (ok: bool)
        requires
            old(self).wf(),
        ensures
            final(self).wf(),
            (final(self)@, ok) == acquire_step(old(self)@, now@),
    {
        self.refill_at(now);
        if self.units >= self.unit {
            self.units = self.units - self.unit;
            true
        } else {
            false
        }
    }

    /// How long until one token is available, counted from the last refill:
    /// zero if one is available now.
    pub fn time_until_token(&self) -> (d: Duration)
        requires
            self.wf(),
        ensures
            self@.units >= self@.unit ==> d@ == 0,
            self@.units < self@.unit ==> d@ * self@.rate >= self@.unit - self@.units && (d@ - 1)
                * self@.rate < self@.unit - self@.units,
    {
        if self.units >= self.unit {
            Duration::zero()
        } else {
            let need = self.unit - self.units;
            let wait = (need + self.rate - 1) / self.rate;
            proof {
                assert(wait * self.rate >= need && (wait - 1) * self.rate < need) by (nonlinear_arith)
                    requires
                        wait as int == (need as int + self.rate as int - 1) / self.rate as int,
                        self.rate >= 1,
                        need >= 1,
                ;
            }
            Duration::from_nanos(wait)
        }
    }
}

/// A full bucket grants exactly `rate` attempts at one instant, then
/// refuses.
pub proof fn lemma_burst_then_refuse(l: LimiterView, now: int)
    requires
        l.rate >= 1,
        l.unit >= 1,
        l.units == capacity(l),
        l.last == now,
    ensures
        forall|k: nat|
            k <= l.rate ==> (#[trigger] drain(l, now, k)).units == (l.rate - k) * l.unit,
        !acquire_step(drain(l, now, l.rate), now).1,
{
    assert forall|k: nat| k <= l.rate implies (#[trigger] drain(l, now, k)).units == (l.rate - k)
        * l.unit by {
        lemma_drain(l, now, k);
    }
    lemma_drain(l, now, l.rate);
    assert((l.rate - l.rate) * l.unit == 0) by (nonlinear_arith);
}

/// The state after `k` attempts at the same instant `now`.
pub open spec fn drain(l: LimiterView, now: int, k: nat) -> LimiterView
    decreases k,
{
    if k == 0 {
        l
    } else {
        acquire_step(drain(l, now, (k - 1) as nat), now).0
    }
}

proof fn lemma_drain(l: LimiterView, now: int, k: nat)
    requires
        l.rate >= 1,
        l.unit >= 1,
        l.units == capacity(l),
        l.last == now,
        k <= l.rate,
    ensures
        drain(l, now, k).units == (l.rate - k) * l.unit,
        drain(l, now, k).last == now,
        drain(l, now, k).rate == l.rate,
        drain(l, now, k).unit == l.unit,
        k < l.rate ==> acquire_step(drain(l, now, k), now).1,
    decreases k,
{
    if k > 0 {
        lemma_drain(l, now, (k - 1) as nat);
        assert((l.rate - (k - 1)) * l.unit == (l.rate - k) * l.unit + l.unit) by (nonlinear_arith);
        assert((l.rate - (k - 1)) * l.unit <= l.rate * l.unit) by (nonlinear_arith)
            requires
                k >= 1,
                l.unit >= 1,
        ;
    }
    if k < l.rate {
        assert((l.rate - k) * l.unit >= l.unit) by (nonlinear_arith)
            requires
                k < l.rate,
                l.unit >= 1,
        ;
        assert((l.rate - k) * l.unit <= l.rate * l.unit) by (nonlinear_arith)
            requires
                l.unit >= 1,
        ;
    }
}

/// After one window's worth of time (`unit` nanoseconds divided by the rate,
/// i.e. the time for one token), an empty bucket grants exactly one attempt.
pub proof fn lemma_refill_one_token(l: LimiterView, now: int, dt: int)
    requires
        l.rate >= 1,
        l.unit >= 1,
        l.units == 0,
        dt >= 0,
        dt * l.rate == l.unit,
        now == l.last + dt,
    ensures
        acquire_step(l, now).1,
        !acquire_step(acquire_step(l, now).0, now).1,
{
    assert(l.unit <= l.rate * l.unit) by (nonlinear_arith)
        requires
            l.rate >= 1,
            l.unit >= 1,
    ;
}

} // verus!
