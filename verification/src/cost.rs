//! Cost governor: tracks STT + LLM spend in micro-dollars, enforces a daily
//! ceiling, and trips a kill-switch. Resets when the UTC day changes.

use vstd::prelude::*;
use crate::clock::unix_time_nanos;

verus! {

/// The abstract state of the governor.
pub struct CostView {
    pub ceiling_micros: nat,
    pub spent_micros: nat,
    pub tripped: bool,
    pub day: nat,
}

/// The state once the day is `today`: a new day clears spend and the
/// kill-switch.
pub open spec fn on_day(s: CostView, today: nat) -> CostView {
    if s.day != today {
        CostView { spent_micros: 0, tripped: false, day: today, ..s }
    } else {
        s
    }
}

/// Recording `micros` of spend on day `today`: nothing is recorded when the
/// amount or the ceiling is zero; otherwise the spend grows, and reaching
/// the ceiling trips the kill-switch. The result is whether this call
/// tripped it (it was not tripped before).
pub open spec fn record_step(s: CostView, micros: nat, today: nat) -> (CostView, bool) {
    let d = on_day(s, today);
    if micros == 0 || d.ceiling_micros == 0 {
        (d, false)
    } else {
        let total = d.spent_micros + micros;
        if total >= d.ceiling_micros {
            (CostView { spent_micros: total, tripped: true, ..d }, !d.tripped)
        } else {
            (CostView { spent_micros: total, ..d }, false)
        }
    }
}

/// Whether spending is allowed on day `today`, and the state after the day
/// check.
pub open spec fn allowed_step(s: CostView, today: nat) -> (CostView, bool) {
    let d = on_day(s, today);
    (d, !d.tripped)
}

/// Days since the Unix epoch for a clock reading in nanoseconds.
pub open spec fn day_of(nanos: int) -> nat {
    (nanos / 86_400_000_000_000) as nat
}

/// The current UTC day number (see `day_from_reading`).
pub fn current_day() -> (d: u64) {
    day_from_reading(unix_time_nanos())
}

/// The UTC day number of a clock reading in nanoseconds since the epoch;
/// 0 when the clock could not be read (it stands before the epoch) or the
/// day does not fit a `u64`.
pub fn day_from_reading(reading: Option<u128>) -> (d: u64)
    ensures
        d as nat == match reading {
            Some(n) => if day_of(n as int) <= u64::MAX {
                day_of(n as int)
            } else {
                0
            },
            None => 0,
        },
{
    match reading {
        Some(n) => {
            let day = n / 86_400_000_000_000;
            if day <= 0xFFFF_FFFF_FFFF_FFFF {
                day as u64
            } else {
                0
            }
        },
        None => 0,
    }
}

/// Spend tracking with a daily ceiling and kill-switch.
pub struct CostGovernor {
    ceiling_micros: u64,
    spent_micros: u64,
    tripped: bool,
    day: u64,
}

impl View for CostGovernor {
    type V = CostView;

    closed spec fn view(&self) -> CostView {
        CostView {
            ceiling_micros: self.ceiling_micros as nat,
            spent_micros: self.spent_micros as nat,
            tripped: self.tripped,
            day: self.day as nat,
        }
    }
}

impl CostGovernor {
    /// A governor with a daily ceiling of `ceiling_micros` micro-dollars
    /// (0 disables the ceiling), starting today (reads the clock).
    pub fn new(ceiling_micros: u64) -> (g: CostGovernor)
        ensures
            g@.ceiling_micros == ceiling_micros,
            g@.spent_micros == 0,
            !g@.tripped,
    {
        CostGovernor::new_on(ceiling_micros, current_day())
    }

    /// A governor starting on day `today`.
    pub fn new_on(ceiling_micros: u64, today: u64) -> (g: CostGovernor)
        ensures
            g@ == (CostView {
                ceiling_micros: ceiling_micros as nat,
                spent_micros: 0,
                tripped: false,
                day: today as nat,
            }),
    {
        CostGovernor { ceiling_micros, spent_micros: 0, tripped: false, day: today }
    }

    fn reset_if_new_day(&mut self, today: u64)
        ensures
            final(self)@ == on_day(old(self)@, today as nat),
    {
        if self.day != today {
            self.day = today;
            self.spent_micros = 0;
            self.tripped = false;
        }
    }

    /// Whether spending is currently allowed (reads the clock for the day).
    pub fn allowed(&mut self) -> (b: bool)
        ensures
            exists|today: nat| (final(self)@, b) == allowed_step(old(self)@, today),
    {
        let today = current_day();
        self.allowed_on(today)
    }

    /// Whether spending is allowed on day `today`: the kill-switch is off
    /// once the day is accounted for.
    pub fn allowed_on(&mut self, today: u64) -> (b: bool)
        ensures
            (final(self)@, b) == allowed_step(old(self)@, today as nat),
    {
        self.reset_if_new_day(today);
        !self.tripped
    }

    /// Records spend (reads the clock for the day). Returns `true` only on
    /// the call that caused the trip, so the caller can emit a single
    /// notice.
    pub fn record(&mut self, micros: u64) -> (caused: bool)
        requires
            old(self)@.spent_micros + micros <= u64::MAX,
        ensures
            exists|today: nat| (final(self)@, caused) == record_step(old(self)@, micros as nat, today),
    {
        let today = current_day();
        self.record_on(micros, today)
    }

    /// Records `micros` of spend on day `today` (see `record_step`).
    pub fn record_on(&mut self, micros: u64, today: u64) -> (caused: bool)
        requires
            old(self)@.spent_micros + micros <= u64::MAX,
        ensures
            (final(self)@, caused) == record_step(old(self)@, micros as nat, today as nat),
    {
        self.reset_if_new_day(today);
        if micros == 0 || self.ceiling_micros == 0 {
            return false;
        }
        let total = self.spent_micros + micros;
        self.spent_micros = total;
        if total >= self.ceiling_micros {
            let was = self.tripped;
            self.tripped = true;
            !was
        } else {
            false
        }
    }

    /// Spend so far today, in micro-dollars.
    pub fn spent_micros(&self) -> (m: u64)
        ensures
            m == self@.spent_micros,
    {
        self.spent_micros
    }

    /// The daily ceiling, in micro-dollars.
    pub fn ceiling_micros(&self) -> (m: u64)
        ensures
            m == self@.ceiling_micros,
    {
        self.ceiling_micros
    }
}

/// Once the kill-switch has tripped, no spending is allowed for the rest of
/// that day, and further spend on that day reports no new trip.
pub proof fn lemma_tripped_blocks_rest_of_day(s: CostView, micros: nat, today: nat)
    requires
        s.tripped,
        s.day == today,
    ensures
        !allowed_step(s, today).1,
        !record_step(s, micros, today).1,
        record_step(s, micros, today).0.tripped,
{
}

/// A trip is reported by exactly one call: the one whose spend first
/// reaches the ceiling; right after it, spending is blocked.
pub proof fn lemma_trip_reported_once(s: CostView, micros: nat, more: nat, today: nat)
    requires
        record_step(s, micros, today).1,
    ensures
        !record_step(record_step(s, micros, today).0, more, today).1,
        !allowed_step(record_step(s, micros, today).0, today).1,
        on_day(s, today).spent_micros + micros >= s.ceiling_micros,
        !on_day(s, today).tripped,
{
}

/// With a zero ceiling the kill-switch never trips and spending stays
/// allowed.
pub proof fn lemma_zero_ceiling_never_trips(s: CostView, micros: nat, today: nat)
    requires
        s.ceiling_micros == 0,
        !s.tripped,
    ensures
        !record_step(s, micros, today).1,
        !record_step(s, micros, today).0.tripped,
        allowed_step(record_step(s, micros, today).0, today).1,
{
}

/// Below the ceiling, spending stays allowed.
pub proof fn lemma_under_ceiling_allowed(s: CostView, micros: nat, today: nat)
    requires
        !s.tripped,
        on_day(s, today).spent_micros + micros < s.ceiling_micros,
    ensures
        !record_step(s, micros, today).1,
        allowed_step(record_step(s, micros, today).0, today).1,
{
}

/// A new day clears spend and the kill-switch.
pub proof fn lemma_new_day_resets(s: CostView, today: nat)
    requires
        s.day != today,
    ensures
        allowed_step(s, today).1,
        allowed_step(s, today).0.spent_micros == 0,
{
}

} // verus!
