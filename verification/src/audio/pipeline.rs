//! Capture pipeline decisions and PCM chunking.

use vstd::prelude::*;
use crate::text::{chars_eq, chars_of, string_views};

verus! {

/// Output sample rate of the transcoder.
pub const SAMPLE_RATE: u32 = 16_000;

/// Bytes of 16 kHz mono s16le PCM per second.
pub const BYTES_PER_SEC: usize = 32_000;

/// How audio is acquired.
#[derive(Debug, Clone, PartialEq, Eq)]
pub enum CaptureMode {
    /// Transcode a local recording, looped.
    Replay(String),
    /// Resolve the HLS audio URL in-process and let ffmpeg read it.
    FfmpegDirect,
    /// Pipe streamlink into ffmpeg.
    Streamlink,
}

/// The capture mode for the settings: a replay file wins; otherwise
/// `ffmpeg-direct` selects direct HLS reading, anything else streamlink.
pub fn capture_mode(replay_file: &Option<String>, media_mode: &str) -> (m: CaptureMode)
    ensures
        replay_file matches Some(f) ==> m == CaptureMode::Replay(*f),
        replay_file is None && media_mode@ == "ffmpeg-direct"@ ==> m == CaptureMode::FfmpegDirect,
        replay_file is None && media_mode@ != "ffmpeg-direct"@ ==> m == CaptureMode::Streamlink,
{
    match replay_file {
        Some(f) => CaptureMode::Replay(f.clone()),
        None => {
            if chars_eq(chars_of(media_mode).as_slice(), chars_of("ffmpeg-direct").as_slice()) {
                CaptureMode::FfmpegDirect
            } else {
                CaptureMode::Streamlink
            }
        },
    }
}

/// The ffmpeg arguments: quiet logging, the given input arguments, then
/// transcoding to 16 kHz mono s16le on stdout.
pub open spec fn ffmpeg_args_spec(input: Seq<Seq<char>>) -> Seq<Seq<char>> {
    seq!["-hide_banner"@, "-loglevel"@, "error"@] + input + seq![
        "-vn"@,
        "-ac"@,
        "1"@,
        "-ar"@,
        "16000"@,
        "-f"@,
        "s16le"@,
        "pipe:1"@,
    ]
}

fn push_str(v: &mut Vec<String>, s: &str)
    ensures
        string_views(final(v)@) == string_views(old(v)@).push(s@),
{
    let ghost before = v@;
    v.push(s.to_owned());
    assert(string_views(v@) =~= string_views(before).push(s@));
}

/// The ffmpeg command line for the given input arguments.
pub fn ffmpeg_args(input: &Vec<String>) -> (a: Vec<String>)
    ensures
        string_views(a@) == ffmpeg_args_spec(string_views(input@)),
{
    let mut a: Vec<String> = Vec::new();
    push_str(&mut a, "-hide_banner");
    push_str(&mut a, "-loglevel");
    push_str(&mut a, "error");
    let ghost head = string_views(a@);
    let mut i: usize = 0;
    while i < input.len()
        invariant
            i <= input@.len(),
            string_views(a@) == head + string_views(input@).take(i as int),
        decreases input.len() - i,
    {
        let ghost before = a@;
        a.push(input[i].clone());
        proof {
            assert(string_views(a@) =~= string_views(before).push(input@[i as int]@));
            assert(string_views(input@).take(i + 1) =~= string_views(input@).take(i as int).push(
                input@[i as int]@,
            ));
        }
        i = i + 1;
    }
    assert(string_views(input@).take(i as int) =~= string_views(input@));
    push_str(&mut a, "-vn");
    push_str(&mut a, "-ac");
    push_str(&mut a, "1");
    push_str(&mut a, "-ar");
    push_str(&mut a, "16000");
    push_str(&mut a, "-f");
    push_str(&mut a, "s16le");
    push_str(&mut a, "pipe:1");
    assert(string_views(a@) =~= ffmpeg_args_spec(string_views(input@)));
    a
}

/// Feeding `data` to a chunker holding `buf`: the data is appended; once the
/// buffer reaches `chunk_bytes` it is handed out whole and the chunker
/// starts empty.
pub open spec fn feed_spec(buf: Seq<u8>, data: Seq<u8>, chunk_bytes: nat) -> (Seq<u8>, Option<Seq<u8>>) {
    let all = buf + data;
    if all.len() >= chunk_bytes {
        (Seq::empty(), Some(all))
    } else {
        (all, None)
    }
}

/// Cuts a PCM byte stream into chunks of at least `chunk_bytes`.
pub struct ChunkAssembler {
    chunk_bytes: usize,
    buf: Vec<u8>,
}

impl ChunkAssembler {
    /// Bytes buffered so far.
    pub closed spec fn pending(&self) -> Seq<u8> {
        self.buf@
    }

    /// Chunk size in bytes.
    pub closed spec fn chunk_size(&self) -> nat {
        self.chunk_bytes as nat
    }

    /// A chunker for chunks of `chunk_secs` seconds of audio (at least one).
    pub fn new(chunk_secs: u32) -> (c: ChunkAssembler)
        requires
            (if chunk_secs >= 1 {
                chunk_secs as int
            } else {
                1
            }) * BYTES_PER_SEC <= usize::MAX,
        ensures
            c.chunk_size() == (if chunk_secs >= 1 {
                chunk_secs as int
            } else {
                1
            }) * BYTES_PER_SEC,
            c.pending() == Seq::<u8>::empty(),
    {
        let secs: usize = if chunk_secs >= 1 {
            chunk_secs as usize
        } else {
            1
        };
        ChunkAssembler { chunk_bytes: secs * BYTES_PER_SEC, buf: Vec::new() }
    }

    /// Adds `data`; returns a full chunk when one is ready (see
    /// `feed_spec`).
    pub fn feed(&mut self, data: &[u8]) -> (r: Option<Vec<u8>>)
        ensures
            final(self).chunk_size() == old(self).chunk_size(),
            (final(self).pending(), match r {
                Some(v) => Some(v@),
                None => None,
            }) == feed_spec(old(self).pending(), data@, old(self).chunk_size()),
    {
        let ghost old_buf = self.buf@;
        let mut i: usize = 0;
        while i < data.len()
            invariant
                i <= data@.len(),
                self.buf@ == old_buf + data@.take(i as int),
                self.chunk_bytes == old(self).chunk_bytes,
            decreases data.len() - i,
        {
            self.buf.push(data[i]);
            proof {
                assert(old_buf + data@.take(i + 1) =~= (old_buf + data@.take(i as int)).push(
                    data@[i as int],
                ));
            }
            i = i + 1;
        }
        assert(data@.take(i as int) =~= data@);
        if self.buf.len() >= self.chunk_bytes {
            let mut full: Vec<u8> = Vec::new();
            std::mem::swap(&mut full, &mut self.buf);
            Some(full)
        } else {
            None
        }
    }
}

/// Chunking loses and reorders nothing: what is handed out followed by what
/// stays buffered is exactly the old buffer followed by the new data.
pub proof fn lemma_feed_preserves_bytes(buf: Seq<u8>, data: Seq<u8>, chunk_bytes: nat)
    ensures
        ({
            let (rest, out) = feed_spec(buf, data, chunk_bytes);
            &&& (match out {
                Some(c) => c + rest,
                None => rest,
            }) == buf + data
            &&& rest.len() < chunk_bytes || chunk_bytes == 0
            &&& out matches Some(c) ==> c.len() >= chunk_bytes
        }),
{
    let (rest, out) = feed_spec(buf, data, chunk_bytes);
    if out is Some {
        assert((buf + data) + Seq::<u8>::empty() =~= buf + data);
    }
}

} // verus!
