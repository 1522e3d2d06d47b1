//! Wrapping raw 16-bit little-endian PCM in a canonical 44-byte WAV (RIFF)
//! header, as the speech-to-text services expect a file.

use vstd::prelude::*;

verus! {

/// The little-endian bytes of a 16-bit value.
pub open spec fn le16(x: int) -> Seq<u8> {
    seq![(x % 256) as u8, ((x / 256) % 256) as u8]
}

/// The little-endian bytes of a 32-bit value.
pub open spec fn le32(x: int) -> Seq<u8> {
    seq![
        (x % 256) as u8,
        ((x / 256) % 256) as u8,
        ((x / 65536) % 256) as u8,
        ((x / 16777216) % 256) as u8,
    ]
}

/// The four ASCII bytes of a chunk tag.
pub open spec fn tag(a: u8, b: u8, c: u8, d: u8) -> Seq<u8> {
    seq![a, b, c, d]
}

/// The canonical header for `data_len` bytes of 16-bit PCM: `RIFF`, the
/// remaining length, `WAVE`, a 16-byte `fmt ` chunk (format 1, channels,
/// sample rate, byte rate, block alignment, 16 bits per sample), then
/// `data` and its length.
pub open spec fn wav_header(data_len: int, sample_rate: int, channels: int) -> Seq<u8> {
    let riff = tag('R' as u8, 'I' as u8, 'F' as u8, 'F' as u8) + le32(36 + data_len) + tag(
        'W' as u8,
        'A' as u8,
        'V' as u8,
        'E' as u8,
    );
    let fmt = tag('f' as u8, 'm' as u8, 't' as u8, ' ' as u8) + le32(16) + le16(1) + le16(channels)
        + le32(sample_rate) + le32(sample_rate * channels * 2) + le16(channels * 2) + le16(16);
    let data = tag('d' as u8, 'a' as u8, 't' as u8, 'a' as u8) + le32(data_len);
    riff + fmt + data
}

fn push_le16(v: &mut Vec<u8>, x: u16)
    ensures
        final(v)@ == old(v)@ + le16(x as int),
{
    v.push((x % 256) as u8);
    v.push(((x / 256) % 256) as u8);
    assert(final(v)@ =~= old(v)@ + le16(x as int));
}

fn push_le32(v: &mut Vec<u8>, x: u32)
    ensures
        final(v)@ == old(v)@ + le32(x as int),
{
    v.push((x % 256) as u8);
    v.push(((x / 256) % 256) as u8);
    v.push(((x / 65536) % 256) as u8);
    v.push(((x / 16777216) % 256) as u8);
    assert(final(v)@ =~= old(v)@ + le32(x as int));
}

fn push_tag(v: &mut Vec<u8>, a: u8, b: u8, c: u8, d: u8)
    ensures
        final(v)@ == old(v)@ + tag(a, b, c, d),
{
    v.push(a);
    v.push(b);
    v.push(c);
    v.push(d);
    assert(final(v)@ =~= old(v)@ + tag(a, b, c, d));
}

/// A WAV file holding `pcm` (16-bit little-endian samples) at
/// `sample_rate` Hz over `channels` channels.
pub fn wav_from_pcm_s16le(pcm: &[u8], sample_rate: u32, channels: u16) -> (w: Vec<u8>)
    requires
        pcm@.len() + 36 <= u32::MAX,
        sample_rate * channels * 2 <= u32::MAX,
        channels * 2 <= u16::MAX,
    ensures
        w@ == wav_header(pcm@.len() as int, sample_rate as int, channels as int) + pcm@,
        w@.len() == 44 + pcm@.len(),
{
    let data_len = pcm.len() as u32;
    let mut w: Vec<u8> = Vec::new();
    push_tag(&mut w, 'R' as u8, 'I' as u8, 'F' as u8, 'F' as u8);
    push_le32(&mut w, 36 + data_len);
    push_tag(&mut w, 'W' as u8, 'A' as u8, 'V' as u8, 'E' as u8);
    push_tag(&mut w, 'f' as u8, 'm' as u8, 't' as u8, ' ' as u8);
    push_le32(&mut w, 16);
    push_le16(&mut w, 1);
    push_le16(&mut w, channels);
    push_le32(&mut w, sample_rate);
    push_le32(&mut w, sample_rate * (channels as u32) * 2);
    push_le16(&mut w, channels * 2);
    push_le16(&mut w, 16);
    push_tag(&mut w, 'd' as u8, 'a' as u8, 't' as u8, 'a' as u8);
    push_le32(&mut w, data_len);
    let ghost head = w@;
    let mut i: usize = 0;
    while i < pcm.len()
        invariant
            i <= pcm@.len(),
            w@ == head + pcm@.take(i as int),
        decreases pcm.len() - i,
    {
        w.push(pcm[i]);
        i = i + 1;
        assert(w@ =~= head + pcm@.take(i as int));
    }
    assert(pcm@.take(i as int) =~= pcm@);
    assert(head =~= wav_header(pcm@.len() as int, sample_rate as int, channels as int));
    w
}

} // verus!
