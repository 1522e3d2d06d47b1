//! Optional persistence: bounded per-table buffers of rows waiting to be
//! written. A slow or absent store never grows memory: the oldest row is
//! dropped when a buffer is full. The writes happen in the app.

use vstd::prelude::*;

verus! {

/// Settings of the storage writer.
pub struct StorageCfg {
    pub url: String,
    pub service_key: String,
    pub channel: String,
}

/// Rows per write.
pub const BATCH: usize = 100;

/// Seconds between timed flushes.
pub const FLUSH_SECS: u64 = 5;

/// Most rows buffered per table.
pub const MAX_BUFFER: usize = 2000;

/// `buf` after adding `v`: the oldest row goes first when `buf` is full.
pub open spec fn push_bounded_spec<T>(buf: Seq<T>, v: T) -> Seq<T> {
    if buf.len() >= MAX_BUFFER {
        buf.drop_first().push(v)
    } else {
        buf.push(v)
    }
}

/// Adds `v` to `buf`, dropping the oldest row when the buffer is full.
pub fn push_bounded<T>(buf: &mut Vec<T>, v: T)
    ensures
        final(buf)@ == push_bounded_spec(old(buf)@, v),
{
    if buf.len() >= MAX_BUFFER {
        buf.remove(0);
    }
    buf.push(v);
}

/// A buffer that is within bounds stays within bounds.
pub proof fn lemma_push_bounded_stays_bounded<T>(buf: Seq<T>, v: T)
    requires
        buf.len() <= MAX_BUFFER,
    ensures
        push_bounded_spec(buf, v).len() <= MAX_BUFFER,
        push_bounded_spec(buf, v).last() == v,
{
}

} // verus!
