//! Exponential backoff with jitter, used by the supervisor for worker
//! restarts.

use vstd::prelude::*;
use crate::clock::{max_duration_nanos, unix_time_nanos, Duration, MAX_DURATION_NANOS};

verus! {

/// One step of the xorshift64 generator (shifts 13, 7, 17).
pub open spec fn xorshift(x: u64) -> u64 {
    let a = x ^ ((x << 13u64) as u64);
    let b = a ^ (a >> 7u64);
    b ^ ((b << 17u64) as u64)
}

/// `2^k` for `k <= 16`.
pub open spec fn pow2(k: nat) -> nat
    decreases k,
{
    if k == 0 {
        1
    } else {
        2 * pow2((k - 1) as nat)
    }
}

/// The delay before jitter: `base * 2^min(attempt, 16)`, saturating at the
/// largest span, then capped at `max`.
pub open spec fn raw_delay(base: int, max: int, attempt: nat) -> int {
    let k: nat = if attempt <= 16 {
        attempt
    } else {
        16
    };
    let grown = if base * pow2(k) <= max_duration_nanos() {
        base * pow2(k)
    } else {
        max_duration_nanos()
    };
    if grown <= max {
        grown
    } else {
        max
    }
}

/// Jitter scaling of `raw` by a random 32-bit draw `r`: `raw * (2^32 + r) /
/// 2^33`, a factor in `[0.5, 1)`.
pub open spec fn jittered(raw: int, r: int) -> int {
    raw * (0x1_0000_0000 + r) / 0x2_0000_0000
}

/// The abstract state of a backoff.
pub struct BackoffView {
    pub base: int,
    pub max: int,
    pub attempt: nat,
    pub rng: u64,
}

/// Exponential backoff capped at `max`, scaled by jitter in `[0.5, 1.0)` to
/// avoid thundering-herd reconnect storms.
#[derive(Debug, Clone)]
pub struct Backoff {
    base: Duration,
    max: Duration,
    attempt: u32,
    rng: u64,
}

impl View for Backoff {
    type V = BackoffView;

    closed spec fn view(&self) -> BackoffView {
        BackoffView {
            base: self.base@,
            max: self.max@,
            attempt: self.attempt as nat,
            rng: self.rng,
        }
    }
}

/// A non-zero seed for a generator, taken from the clock (see
/// `seed_from_reading`).
pub fn seed() -> (s: u64)
    ensures
        s != 0,
{
    seed_from_reading(unix_time_nanos())
}

/// The seed for a clock reading in nanoseconds since the epoch: its low 64
/// bits with the lowest bit set, or a fixed odd constant when the clock
/// could not be read. Never zero.
pub fn seed_from_reading(reading: Option<u128>) -> (s: u64)
    ensures
        s == match reading {
            Some(n) => ((n % 0x1_0000_0000_0000_0000) as u64) | 1u64,
            None => 0x9E37_79B9_7F4A_7C15u64,
        },
        s != 0,
{
    match reading {
        Some(n) => {
            let low = (n % 0x1_0000_0000_0000_0000) as u64;
            let s = low | 1;
            assert(s != 0) by (bit_vector)
                requires
                    s == low | 1u64,
            ;
            s
        },
        None => 0x9E37_79B9_7F4A_7C15,
    }
}

/// The next state of the xorshift64 generator.
pub fn next_random(x: u64) -> (y: u64)
    ensures
        y == xorshift(x),
{
    let a = x ^ (x << 13u64);
    let b = a ^ (a >> 7u64);
    b ^ (b << 17u64)
}

proof fn lemma_pow2_mono(a: nat, b: nat)
    requires
        a <= b,
    ensures
        1 <= pow2(a) <= pow2(b),
    decreases b,
{
    if b > a {
        lemma_pow2_mono(a, (b - 1) as nat);
    } else {
        lemma_pow2_pos(a);
    }
}

proof fn lemma_pow2_pos(n: nat)
    ensures
        pow2(n) >= 1,
    decreases n,
{
    if n > 0 {
        lemma_pow2_pos((n - 1) as nat);
    }
}

proof fn lemma_pow2_bound(k: nat)
    requires
        k <= 16,
    ensures
        1 <= pow2(k) <= 65536,
{
    lemma_pow2_mono(k, 16);
    reveal_with_fuel(pow2, 17);
    assert(pow2(16) == 65536);
}

fn pow2_u32(k: u32) -> (p: u32)
    requires
        k <= 16,
    ensures
        p as nat == pow2(k as nat),
    decreases k,
{
    if k == 0 {
        1
    } else {
        proof {
            lemma_pow2_bound((k - 1) as nat);
        }
        2 * pow2_u32(k - 1)
    }
}

impl Default for Backoff {
    /// 500 ms base, 30 s cap.
    fn default() -> (b: Backoff)
        ensures
            b@.base == 500_000_000,
            b@.max == 30_000_000_000,
            b@.attempt == 0,
    {
        Backoff::new(Duration::from_millis(500), Duration::from_secs(30))
    }
}

impl Backoff {
    /// A fresh backoff; the jitter generator is seeded from the clock.
    pub fn new(base: Duration, max: Duration) -> (b: Backoff)
        ensures
            b@.base == base@,
            b@.max == max@,
            b@.attempt == 0,
    {
        Backoff { base, max, attempt: 0, rng: seed() }
    }

    /// A fresh backoff whose jitter generator starts from `seed`.
    pub fn with_seed(base: Duration, max: Duration, seed: u64) -> (b: Backoff)
        ensures
            b@ == (BackoffView { base: base@, max: max@, attempt: 0, rng: seed }),
    {
        Backoff { base, max, attempt: 0, rng: seed }
    }

    /// The cap on delays.
    pub fn max(&self) -> (d: Duration)
        ensures
            d@ == self@.max,
    {
        self.max
    }

    /// Reset after a worker has run long enough to be considered healthy.
    pub fn reset(&mut self)
        ensures
            final(self)@ == (BackoffView { attempt: 0, ..old(self)@ }),
    {
        self.attempt = 0;
    }

    /// `min(max, base * 2^attempt)` scaled by jitter in `[0.5, 1.0)`; the
    /// attempt count then grows by one (saturating) and the generator
    /// advances.
    pub fn next_delay(&mut self) -> (d: Duration)
        requires
            old(self)@.base <= max_duration_nanos(),
            old(self)@.max <= max_duration_nanos(),
        ensures
            final(self)@.base == old(self)@.base,
            final(self)@.max == old(self)@.max,
            final(self)@.attempt == if old(self)@.attempt < u32::MAX {
                old(self)@.attempt + 1
            } else {
                old(self)@.attempt
            },
            final(self)@.rng == xorshift(old(self)@.rng),
            d@ == jittered(
                raw_delay(old(self)@.base, old(self)@.max, old(self)@.attempt),
                (xorshift(old(self)@.rng) >> 32u64) as int,
            ),
    {
        let k: u32 = if self.attempt <= 16 {
            self.attempt
        } else {
            16
        };
        let factor = pow2_u32(k);
        let raw = self.base.saturating_mul(factor).min(self.max);
        self.attempt = self.attempt.saturating_add(1);
        let x = next_random(self.rng);
        self.rng = x;
        let r = (x >> 32u64) as u128;
        let raw_n = raw.as_nanos();
        proof {
            assert(r < 0x1_0000_0000) by (bit_vector)
                requires
                    r == (x >> 32u64) as u128,
            ;
            assert(raw_n <= max_duration_nanos());
            assert(raw_n as int * (0x1_0000_0000 + r as int) <= max_duration_nanos() * 0x2_0000_0000)
                by (nonlinear_arith)
                requires
                    0 <= raw_n <= max_duration_nanos(),
                    0 <= r < 0x1_0000_0000,
            ;
        }
        let scaled = raw_n * (0x1_0000_0000u128 + r) / 0x2_0000_0000u128;
        Duration::from_nanos(scaled)
    }
}

/// A jittered delay lies between half the raw delay (rounded down) and the
/// raw delay.
pub proof fn lemma_jitter_bounds(raw: int, r: int)
    requires
        raw >= 0,
        0 <= r < 0x1_0000_0000,
    ensures
        raw / 2 <= jittered(raw, r) <= raw,
{
    assert(raw * (0x1_0000_0000 + r) / 0x2_0000_0000 <= raw) by (nonlinear_arith)
        requires
            raw >= 0,
            0 <= r < 0x1_0000_0000,
    ;
    assert(raw / 2 <= raw * (0x1_0000_0000 + r) / 0x2_0000_0000) by (nonlinear_arith)
        requires
            raw >= 0,
            0 <= r < 0x1_0000_0000,
    ;
}

/// No delay ever exceeds the cap `max`.
pub proof fn lemma_delay_capped(base: int, max: int, attempt: nat, r: int)
    requires
        0 <= base,
        0 <= max,
        0 <= r < 0x1_0000_0000,
    ensures
        jittered(raw_delay(base, max, attempt), r) <= max,
{
    let k: nat = if attempt <= 16 {
        attempt
    } else {
        16
    };
    lemma_pow2_bound(k);
    assert(base * pow2(k) >= 0) by (nonlinear_arith)
        requires
            base >= 0,
            pow2(k) >= 1,
    ;
    lemma_jitter_bounds(raw_delay(base, max, attempt), r);
}

/// Right after a reset the raw delay is `min(base, max)`, so no delay exceeds
/// the base.
pub proof fn lemma_reset_delay_at_most_base(base: int, max: int, r: int)
    requires
        0 <= base <= max_duration_nanos(),
        0 <= max,
        0 <= r < 0x1_0000_0000,
    ensures
        raw_delay(base, max, 0) == if base <= max {
            base
        } else {
            max
        },
        jittered(raw_delay(base, max, 0), r) <= base,
{
    assert(pow2(0) == 1);
    assert(base * pow2(0) == base);
    lemma_jitter_bounds(raw_delay(base, max, 0), r);
}

/// Before the cap, each attempt doubles the raw delay.
pub proof fn lemma_raw_delay_doubles(base: int, max: int, attempt: nat)
    requires
        0 <= base,
        attempt < 16,
        base * pow2(attempt + 1) <= max_duration_nanos(),
        base * pow2(attempt + 1) <= max,
    ensures
        raw_delay(base, max, attempt + 1) == 2 * raw_delay(base, max, attempt),
{
    lemma_pow2_bound(attempt);
    assert(pow2(attempt + 1) == 2 * pow2(attempt));
    assert(base * pow2(attempt) <= base * pow2(attempt + 1)) by (nonlinear_arith)
        requires
            base >= 0,
            pow2(attempt + 1) == 2 * pow2(attempt),
            pow2(attempt) >= 1,
    ;
    assert(base * pow2(attempt + 1) == 2 * (base * pow2(attempt))) by (nonlinear_arith)
        requires
            pow2(attempt + 1) == 2 * pow2(attempt),
    ;
}

} // verus!
