//! Worker supervision decisions: how long to wait before restarting a worker
//! that exited. Spawning and waiting happen in the app.

use vstd::prelude::*;
use crate::backoff::{jittered, raw_delay, xorshift, Backoff, BackoffView};
use crate::clock::{max_duration_nanos, Duration};

verus! {

/// A worker that ran at least this long before exiting is considered
/// healthy, so its restart backoff starts over.
pub open spec fn healthy_runtime_nanos() -> int {
    60_000_000_000
}

/// The delay before restarting a worker that ran for `ran_for`: the backoff
/// is reset first if the run was healthy, then the next delay is drawn.
pub fn restart_delay(backoff: &mut Backoff, ran_for: Duration) -> (d: Duration)
    requires
        old(backoff)@.base <= max_duration_nanos(),
        old(backoff)@.max <= max_duration_nanos(),
    ensures
        ({
            let start = if ran_for@ >= healthy_runtime_nanos() {
                0
            } else {
                old(backoff)@.attempt
            };
            &&& d@ == jittered(
                raw_delay(old(backoff)@.base, old(backoff)@.max, start),
                (xorshift(old(backoff)@.rng) >> 32u64) as int,
            )
            &&& final(backoff)@.attempt == if start < u32::MAX {
                start + 1
            } else {
                start
            }
            &&& final(backoff)@.rng == xorshift(old(backoff)@.rng)
            &&& final(backoff)@.base == old(backoff)@.base
            &&& final(backoff)@.max == old(backoff)@.max
        }),
{
    if Duration::from_secs(60).le(&ran_for) {
        backoff.reset();
    }
    backoff.next_delay()
}

} // verus!
