//! Energy of a PCM chunk for the voice-activity gate: the total of every
//! 16-bit sample multiplied by itself, and the number of samples. The app
//! turns these into a normalized RMS and compares it with its threshold.

use vstd::prelude::*;

verus! {

/// The signed value of the 16-bit little-endian sample in frame `k`.
pub open spec fn sample_at(pcm: Seq<u8>, k: int) -> int {
    let v = pcm[2 * k] as int + 256 * pcm[2 * k + 1] as int;
    if v >= 32768 {
        v - 65536
    } else {
        v
    }
}

/// Sum of the squares of the first `n` samples.
pub open spec fn sum_squares(pcm: Seq<u8>, n: nat) -> int
    decreases n,
{
    if n == 0 {
        0
    } else {
        sum_squares(pcm, (n - 1) as nat) + sample_at(pcm, n - 1) * sample_at(pcm, n - 1)
    }
}

/// The sum of squared samples of `pcm` (whole frames only; a trailing odd
/// byte is ignored) and the number of frames.
pub fn energy_s16le(pcm: &[u8]) -> (r: (u128, u64))
    ensures
        r.1 as int == pcm@.len() / 2,
        r.0 as int == sum_squares(pcm@, (pcm@.len() / 2) as nat),
{
    let len = pcm.len();
    let n = len / 2;
    let mut acc: u128 = 0;
    let mut k: usize = 0;
    while k < n
        invariant
            len == pcm@.len(),
            n == len / 2,
            k <= n,
            acc as int == sum_squares(pcm@, k as nat),
            acc as int <= k as int * 0x4000_0000,
        decreases n - k,
    {
        assert(2 * k + 1 < pcm@.len());
        let i = 2 * k;
        let lo = pcm[i] as i32;
        let hi = pcm[i + 1] as i32;
        let mut v: i32 = lo + 256 * hi;
        if v >= 32768 {
            v = v - 65536;
        }
        assert(v as int == sample_at(pcm@, k as int));
        assert(v * v <= 0x4000_0000) by (nonlinear_arith)
            requires
                -32768 <= v <= 32767,
        ;
        assert(v * v >= 0) by (nonlinear_arith);
        let sq = (v * v) as u128;
        assert(acc + sq <= (k + 1) as int * 0x4000_0000) by (nonlinear_arith)
            requires
                acc as int <= k as int * 0x4000_0000,
                sq <= 0x4000_0000,
        ;
        assert((k + 1) as int * 0x4000_0000 <= 0x1_0000_0000_0000_0000 * 0x4000_0000) by (
        nonlinear_arith)
            requires
                k < 0x1_0000_0000_0000_0000,
        ;
        acc = acc + sq;
        k = k + 1;
    }
    (acc, n as u64)
}

} // verus!
