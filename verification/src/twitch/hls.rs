//! Picking the audio rendition from a Twitch HLS master playlist.

use vstd::prelude::*;
use crate::text::{
    chars_of, contains, contains_seq, has_prefix, lines, lines_spec, lowercase, starts_with,
    string_of, to_lowercase, trim, trim_spec, views,
};

verus! {

/// A line that is a comment/tag (starts with `#`) or blank.
pub open spec fn skippable(l: Seq<char>) -> bool {
    has_prefix(l, "#"@) || trim_spec(l).len() == 0
}

/// Index of the first line at or after `j` that is neither a comment nor
/// blank (`ls.len()` if none).
pub open spec fn next_url_index(ls: Seq<Seq<char>>, j: int) -> int
    decreases ls.len() - j,
{
    if j >= ls.len() {
        ls.len() as int
    } else if skippable(ls[j]) {
        next_url_index(ls, j + 1)
    } else {
        j
    }
}

/// Where the next URL line is, and that everything before it is skipped.
pub proof fn lemma_next_url_index(ls: Seq<Seq<char>>, j: int)
    requires
        j >= 0,
    ensures
        j <= ls.len() ==> j <= next_url_index(ls, j) <= ls.len(),
        next_url_index(ls, j) < ls.len() ==> !skippable(ls[next_url_index(ls, j)]),
        forall|k: int| j <= k < next_url_index(ls, j) ==> skippable(#[trigger] ls[k]),
    decreases ls.len() - j,
{
    if j < ls.len() && skippable(ls[j]) {
        lemma_next_url_index(ls, j + 1);
    }
}

/// Scanning the lines from `i` with `last` the URL of the last variant seen:
/// each `#EXT-X-STREAM-INF` line takes the next non-comment, non-blank line
/// (trimmed) as its URL; a variant whose info mentions `audio_only` (any
/// case) is the answer; otherwise scanning resumes after its URL. At the
/// end the last variant seen is the answer.
pub open spec fn scan_playlist(ls: Seq<Seq<char>>, i: int, last: Option<Seq<char>>) -> Option<
    Seq<char>,
>
    decreases ls.len() - i,
{
    if i < 0 || i >= ls.len() {
        last
    } else if has_prefix(ls[i], "#EXT-X-STREAM-INF"@) {
        let j = next_url_index(ls, i + 1);
        proof {
            lemma_next_url_index(ls, i + 1);
        }
        if j < ls.len() {
            let url = trim_spec(ls[j]);
            if contains_seq(lowercase(ls[i]), "audio_only"@) {
                Some(url)
            } else {
                scan_playlist(ls, j + 1, Some(url))
            }
        } else {
            scan_playlist(ls, i + 1, last)
        }
    } else {
        scan_playlist(ls, i + 1, last)
    }
}

/// `l` starts a variant (`#EXT-X-STREAM-INF`).
pub open spec fn is_variant_line(l: Seq<char>) -> bool {
    has_prefix(l, "#EXT-X-STREAM-INF"@)
}

/// A variant line that marks the audio-only rendition (any case).
pub open spec fn is_audio_only_line(l: Seq<char>) -> bool {
    is_variant_line(l) && contains_seq(lowercase(l), "audio_only"@)
}

/// Scanning from `p` reaches the audio-only variant at `i` when every
/// variant line between them is another rendition whose URL line lies
/// before `i`.
proof fn lemma_scan_reaches(ls: Seq<Seq<char>>, p: int, i: int, last: Option<Seq<char>>)
    requires
        0 <= p <= i < ls.len(),
        is_audio_only_line(ls[i]),
        next_url_index(ls, i + 1) < ls.len(),
        forall|k: int|
            p <= k < i && #[trigger] is_variant_line(ls[k]) ==> !is_audio_only_line(ls[k])
                && next_url_index(ls, k + 1) < i,
    ensures
        scan_playlist(ls, p, last) == Some(trim_spec(ls[next_url_index(ls, i + 1)])),
    decreases i - p,
{
    if p < i {
        if is_variant_line(ls[p]) {
            let j = next_url_index(ls, p + 1);
            lemma_next_url_index(ls, p + 1);
            lemma_scan_reaches(ls, j + 1, i, Some(trim_spec(ls[j])));
        } else {
            lemma_scan_reaches(ls, p + 1, i, last);
        }
    }
}

/// The audio-only rendition wins wherever it stands: when the variant at
/// line `i` is marked `audio_only` and has a URL line, and each variant
/// before it is another rendition whose URL line comes before line `i`,
/// the result is that URL line, trimmed.
pub proof fn lemma_audio_only_wins(master: Seq<char>, i: int)
    requires
        0 <= i < lines_spec(master).len(),
        is_audio_only_line(lines_spec(master)[i]),
        next_url_index(lines_spec(master), i + 1) < lines_spec(master).len(),
        forall|k: int|
            0 <= k < i && #[trigger] is_variant_line(lines_spec(master)[k])
                ==> !is_audio_only_line(lines_spec(master)[k]) && next_url_index(
                lines_spec(master),
                k + 1,
            ) < i,
    ensures
        pick_audio_only_spec(master) == Some(
            trim_spec(lines_spec(master)[next_url_index(lines_spec(master), i + 1)]),
        ),
{
    lemma_scan_reaches(lines_spec(master), 0, i, None);
}

/// The URL `pick_audio_only` finds in a master playlist.
pub open spec fn pick_audio_only_spec(master: Seq<char>) -> Option<Seq<char>> {
    scan_playlist(lines_spec(master), 0, None)
}

/// Parse a master playlist and return the `audio_only` media-playlist URL,
/// falling back to the last variant URL if no audio-only rendition exists.
pub fn pick_audio_only(master: &str) -> (r: Option<String>)
    ensures
        match r {
            Some(u) => pick_audio_only_spec(master@) == Some(u@),
            None => pick_audio_only_spec(master@) is None,
        },
{
    let ls = lines(chars_of(master).as_slice());
    let ghost lv = views(ls@);
    let inf_tag = chars_of("#EXT-X-STREAM-INF");
    let hash = chars_of("#");
    let audio = chars_of("audio_only");
    let mut last_url: Option<Vec<char>> = None;
    let mut i: usize = 0;
    while i < ls.len()
        invariant
            i <= ls@.len(),
            lv == views(ls@),
            lv == lines_spec(master@),
            inf_tag@ == "#EXT-X-STREAM-INF"@,
            hash@ == "#"@,
            audio@ == "audio_only"@,
            scan_playlist(
                lv,
                i as int,
                match last_url {
                    Some(u) => Some(u@),
                    None => None,
                },
            ) == pick_audio_only_spec(master@),
        decreases ls.len() - i,
    {
        proof {
            assert(lv[i as int] == ls@[i as int]@);
        }
        if starts_with(ls[i].as_slice(), inf_tag.as_slice()) {
            let mut j = i + 1;
            proof {
                lemma_next_url_index(lv, i + 1);
            }
            while j < ls.len() && (starts_with(ls[j].as_slice(), hash.as_slice()) || trim(
                ls[j].as_slice(),
            ).len() == 0)
                invariant
                    i < j <= ls@.len(),
                    lv == views(ls@),
                    hash@ == "#"@,
                    next_url_index(lv, j as int) == next_url_index(lv, i + 1),
                decreases ls.len() - j,
            {
                proof {
                    assert(lv[j as int] == ls@[j as int]@);
                }
                j = j + 1;
            }
            proof {
                if j < ls@.len() {
                    assert(lv[j as int] == ls@[j as int]@);
                    assert(!skippable(lv[j as int]));
                }
            }
            if j < ls.len() {
                let url = trim(ls[j].as_slice());
                proof {
                    assert(lv[j as int] == ls@[j as int]@);
                }
                let lower = to_lowercase(ls[i].as_slice());
                if contains(lower.as_slice(), audio.as_slice()) {
                    return Some(string_of(url.as_slice()));
                }
                last_url = Some(url);
                i = j;
            }
        }
        i = i + 1;
    }
    match last_url {
        Some(u) => Some(string_of(u.as_slice())),
        None => None,
    }
}

} // verus!
