//! Configuration values read from the environment: the channel login, the
//! log format, and how setting strings are interpreted. Reading the
//! environment itself happens in the app.

use vstd::prelude::*;
use crate::clock::Duration;
use crate::text::{
    chars_eq, chars_of, has_prefix, lines, lines_spec, lowercase, parse_unsigned,
    parse_unsigned_chars, slice_chars, starts_with, string_of, to_lowercase, trim, trim_spec,
    views,
};

verus! {

/// Log output format.
#[derive(Debug, Clone, Copy, PartialEq, Eq, Structural)]
pub enum LogFormat {
    Json,
    Text,
}

/// `s` without the prefix `p`, when it has it.
pub open spec fn strip_prefix_spec(s: Seq<char>, p: Seq<char>) -> Seq<char> {
    if has_prefix(s, p) {
        s.skip(p.len() as int)
    } else {
        s
    }
}

/// A character that ends the login part of a channel URL: `/`, `?` or `#`.
pub open spec fn is_url_break(c: char) -> bool {
    c == '/' || c == '?' || c == '#'
}

/// `s` up to (not including) its first `/`, `?` or `#`.
pub open spec fn until_url_break(s: Seq<char>) -> Seq<char>
    decreases s.len(),
{
    if s.len() == 0 || is_url_break(s[0]) {
        Seq::empty()
    } else {
        seq![s[0]] + until_url_break(s.drop_first())
    }
}

/// The bare lowercase login for a channel login or Twitch URL: trimmed,
/// without `https://`, then `http://`, then `www.`, then `twitch.tv/`, cut at
/// the first `/`, `?` or `#`, trimmed again and lowercased.
pub open spec fn normalize_spec(raw: Seq<char>) -> Seq<char> {
    let s1 = strip_prefix_spec(trim_spec(raw), "https://"@);
    let s2 = strip_prefix_spec(s1, "http://"@);
    let s3 = strip_prefix_spec(s2, "www."@);
    let s4 = strip_prefix_spec(s3, "twitch.tv/"@);
    lowercase(trim_spec(until_url_break(s4)))
}

fn strip_prefix_chars(s: Vec<char>, p: &str) -> (r: Vec<char>)
    ensures
        r@ == strip_prefix_spec(s@, p@),
{
    let pc = chars_of(p);
    if starts_with(s.as_slice(), pc.as_slice()) {
        slice_chars(s.as_slice(), pc.len(), s.len())
    } else {
        s
    }
}

proof fn lemma_until_at(s: Seq<char>, k: int)
    requires
        0 <= k <= s.len(),
        forall|i: int| 0 <= i < k ==> !is_url_break(#[trigger] s[i]),
        k == s.len() || is_url_break(s[k]),
    ensures
        until_url_break(s) == s.subrange(0, k),
    decreases k,
{
    if k == 0 {
        assert(s.subrange(0, 0) =~= Seq::<char>::empty());
    } else {
        let t = s.drop_first();
        assert forall|i: int| 0 <= i < k - 1 implies !is_url_break(#[trigger] t[i]) by {
            assert(t[i] == s[i + 1]);
        }
        lemma_until_at(t, k - 1);
        assert(seq![s[0]] + t.subrange(0, k - 1) =~= s.subrange(0, k));
    }
}

/// Normalize a channel login or a full Twitch URL to the bare lowercase
/// login: `gaules`, `https://twitch.tv/Gaules/`, `twitch.tv/gaules?x=1` ->
/// `gaules`.
pub fn normalize_channel(raw: &str) -> (r: String)
    ensures
        r@ == normalize_spec(raw@),
{
    let s0 = trim(chars_of(raw).as_slice());
    let s1 = strip_prefix_chars(s0, "https://");
    let s2 = strip_prefix_chars(s1, "http://");
    let s3 = strip_prefix_chars(s2, "www.");
    let s4 = strip_prefix_chars(s3, "twitch.tv/");
    let mut k: usize = 0;
    while k < s4.len() && !(s4[k] == '/' || s4[k] == '?' || s4[k] == '#')
        invariant
            k <= s4@.len(),
            forall|i: int| 0 <= i < k ==> !is_url_break(#[trigger] s4@[i]),
        decreases s4.len() - k,
    {
        k = k + 1;
    }
    proof {
        lemma_until_at(s4@, k as int);
    }
    let login = slice_chars(s4.as_slice(), 0, k);
    let t = trim(login.as_slice());
    let lower = to_lowercase(t.as_slice());
    string_of(lower.as_slice())
}

/// `None` for a blank string, else the string itself.
pub fn opt(s: String) -> (r: Option<String>)
    ensures
        r is None <==> trim_spec(s@).len() == 0,
        r matches Some(v) ==> v@ == s@,
{
    let t = trim(chars_of(s.as_str()).as_slice());
    if t.len() == 0 {
        None
    } else {
        Some(s)
    }
}

/// The log format named by a setting: `text`, `plain` or `pretty` (in any
/// case) give text; anything else JSON.
pub open spec fn log_format_spec(value: Seq<char>) -> LogFormat {
    let v = lowercase(value);
    if v == "text"@ || v == "plain"@ || v == "pretty"@ {
        LogFormat::Text
    } else {
        LogFormat::Json
    }
}

/// The log format for the `LOG_FORMAT` setting.
pub fn log_format_from(value: &str) -> (f: LogFormat)
    ensures
        f == log_format_spec(value@),
{
    let v = to_lowercase(chars_of(value).as_slice());
    if chars_eq(v.as_slice(), chars_of("text").as_slice()) || chars_eq(
        v.as_slice(),
        chars_of("plain").as_slice(),
    ) || chars_eq(v.as_slice(), chars_of("pretty").as_slice()) {
        LogFormat::Text
    } else {
        LogFormat::Json
    }
}

/// A boolean setting: `1`, `true`, `yes`, `on` are true; `0`, `false`,
/// `no`, `off` are false (trimmed, any case); anything else is invalid.
pub open spec fn bool_setting_spec(value: Seq<char>) -> Option<bool> {
    let v = lowercase(trim_spec(value));
    if v == "1"@ || v == "true"@ || v == "yes"@ || v == "on"@ {
        Some(true)
    } else if v == "0"@ || v == "false"@ || v == "no"@ || v == "off"@ {
        Some(false)
    } else {
        None
    }
}

/// Interprets a boolean setting; `None` when it is not a recognised word.
pub fn parse_bool_setting(value: &str) -> (r: Option<bool>)
    ensures
        r == bool_setting_spec(value@),
{
    let v = to_lowercase(trim(chars_of(value).as_slice()).as_slice());
    let vs = v.as_slice();
    if chars_eq(vs, chars_of("1").as_slice()) || chars_eq(vs, chars_of("true").as_slice())
        || chars_eq(vs, chars_of("yes").as_slice()) || chars_eq(vs, chars_of("on").as_slice()) {
        Some(true)
    } else if chars_eq(vs, chars_of("0").as_slice()) || chars_eq(vs, chars_of("false").as_slice())
        || chars_eq(vs, chars_of("no").as_slice()) || chars_eq(vs, chars_of("off").as_slice()) {
        Some(false)
    } else {
        None
    }
}

/// An unsigned setting with largest value `max`: the default when unset,
/// otherwise the trimmed value parsed (`None` when it does not parse).
pub fn parse_unsigned_setting(value: Option<&str>, default: u64, max: u64) -> (r: Option<u64>)
    ensures
        value is None ==> r == Some(default),
        value matches Some(v) ==> (r matches Some(n) ==> parse_unsigned(
            trim_spec(v@),
            max as nat,
        ) == Some(n as nat)) && (r is None <==> parse_unsigned(trim_spec(v@), max as nat) is None),
{
    match value {
        None => Some(default),
        Some(v) => {
            let t = trim(chars_of(v).as_slice());
            parse_unsigned_chars(t.as_slice(), max)
        },
    }
}

/// A duration setting given in whole seconds: `default_secs` when unset,
/// otherwise the trimmed value parsed as a `u64` (`None` when it does not
/// parse).
pub fn duration_secs_setting(value: Option<&str>, default_secs: u64) -> (r: Option<Duration>)
    ensures
        value is None ==> (r matches Some(d) && d@ == default_secs * 1_000_000_000),
        value matches Some(v) ==> (r matches Some(d) ==> exists|n: nat|
            parse_unsigned(trim_spec(v@), u64::MAX as nat) == Some(n) && d@ == n
                * 1_000_000_000) && (r is None <==> parse_unsigned(
            trim_spec(v@),
            u64::MAX as nat,
        ) is None),
{
    match parse_unsigned_setting(value, default_secs, u64::MAX) {
        Some(secs) => Some(Duration::from_secs(secs)),
        None => None,
    }
}

/// `s` without leading and trailing `c` characters (`str::trim_matches`).
pub open spec fn strip_char_spec(s: Seq<char>, c: char) -> Seq<char>
    decreases s.len(),
{
    if s.len() > 0 && s[0] == c {
        strip_char_spec(s.drop_first(), c)
    } else if s.len() > 0 && s.last() == c {
        strip_char_spec(s.drop_last(), c)
    } else {
        s
    }
}

proof fn lemma_strip_char_at(s: Seq<char>, c: char, a: int, b: int)
    requires
        0 <= a <= b <= s.len(),
        forall|i: int| 0 <= i < a ==> s[i] == c,
        forall|i: int| b <= i < s.len() ==> s[i] == c,
        a == b || (s[a] != c && s[b - 1] != c),
    ensures
        strip_char_spec(s, c) == s.subrange(a, b),
    decreases s.len(),
{
    if s.len() > 0 && s[0] == c {
        let t = s.drop_first();
        if a == 0 {
            // a == b == 0: every character is `c`
            assert(b == 0);
            lemma_strip_char_at(t, c, 0, 0);
            assert(t.subrange(0, 0) =~= s.subrange(0, 0));
        } else {
            lemma_strip_char_at(t, c, a - 1, b - 1);
            assert(t.subrange(a - 1, b - 1) =~= s.subrange(a, b));
        }
    } else if s.len() > 0 && s.last() == c {
        let t = s.drop_last();
        if b == s.len() {
            // then a == b: nothing is kept
            assert(a == b);
            lemma_strip_char_at(t, c, t.len() as int, t.len() as int);
            assert(t.subrange(t.len() as int, t.len() as int) =~= s.subrange(a, b));
        } else {
            lemma_strip_char_at(t, c, a, b);
            assert(t.subrange(a, b) =~= s.subrange(a, b));
        }
    } else {
        if s.len() > 0 {
            assert(a == 0);
            assert(b == s.len());
        }
        assert(s.subrange(a, b) =~= s);
    }
}

fn strip_char(s: &[char], c: char) -> (r: Vec<char>)
    ensures
        r@ == strip_char_spec(s@, c),
{
    let n = s.len();
    let mut a: usize = 0;
    while a < n && s[a] == c
        invariant
            a <= n,
            n == s@.len(),
            forall|i: int| 0 <= i < a ==> s@[i] == c,
        decreases n - a,
    {
        a = a + 1;
    }
    let mut b: usize = n;
    while b > a && s[b - 1] == c
        invariant
            a <= b <= n,
            n == s@.len(),
            forall|i: int| b <= i < n ==> s@[i] == c,
        decreases b - a,
    {
        b = b - 1;
    }
    proof {
        lemma_strip_char_at(s@, c, a as int, b as int);
    }
    slice_chars(s, a, b)
}

/// Index of the first `=` in `s`, if any.
pub open spec fn first_eq_index(s: Seq<char>, i: int) -> bool {
    0 <= i < s.len() && s[i] == '=' && forall|j: int| 0 <= j < i ==> s[j] != '='
}

/// The setting a `.env` line defines: blank lines and `#` comments define
/// nothing; otherwise `KEY=VALUE` split at the first `=`, the key trimmed,
/// the value trimmed and stripped of surrounding `"` and then `'`.
pub open spec fn dotenv_entry(line: Seq<char>) -> Option<(Seq<char>, Seq<char>)> {
    let l = trim_spec(line);
    if l.len() == 0 || l[0] == '#' || !(exists|i: int| first_eq_index(l, i)) {
        None
    } else {
        let i = choose|i: int| first_eq_index(l, i);
        Some(
            (
                trim_spec(l.take(i)),
                strip_char_spec(strip_char_spec(trim_spec(l.skip(i + 1)), '"'), '\''),
            ),
        )
    }
}

/// The settings defined by the lines `ls`, in order.
pub open spec fn dotenv_entries(ls: Seq<Seq<char>>) -> Seq<(Seq<char>, Seq<char>)>
    decreases ls.len(),
{
    if ls.len() == 0 {
        Seq::empty()
    } else {
        let prev = dotenv_entries(ls.drop_last());
        match dotenv_entry(ls.last()) {
            Some(kv) => prev.push(kv),
            None => prev,
        }
    }
}

/// The views of key/value pairs.
pub open spec fn pair_views(v: Seq<(String, String)>) -> Seq<(Seq<char>, Seq<char>)> {
    v.map_values(|p: (String, String)| (p.0@, p.1@))
}

/// Parses the contents of a `.env` file: `KEY=VALUE` lines, `#` comments,
/// no interpolation. Returns the pairs in file order.
pub fn parse_dotenv(contents: &str) -> (r: Vec<(String, String)>)
    ensures
        pair_views(r@) == dotenv_entries(lines_spec(contents@)),
{
    let ls = lines(chars_of(contents).as_slice());
    let ghost lv = views(ls@);
    let mut out: Vec<(String, String)> = Vec::new();
    let mut k: usize = 0;
    while k < ls.len()
        invariant
            k <= ls@.len(),
            lv == views(ls@),
            lv == lines_spec(contents@),
            pair_views(out@) == dotenv_entries(lv.take(k as int)),
        decreases ls.len() - k,
    {
        proof {
            assert(lv.take(k + 1).drop_last() =~= lv.take(k as int));
            assert(lv.take(k + 1).last() == ls@[k as int]@);
        }
        let l = trim(ls[k].as_slice());
        if l.len() > 0 && l[0] != '#' {
            let mut i: usize = 0;
            while i < l.len() && l[i] != '='
                invariant
                    i <= l@.len(),
                    forall|j: int| 0 <= j < i ==> l@[j] != '=',
                decreases l.len() - i,
            {
                i = i + 1;
            }
            if i < l.len() {
                proof {
                    assert(first_eq_index(l@, i as int));
                    let c = choose|c: int| first_eq_index(l@, c);
                    if c < i {
                        assert(l@[c] == '=');
                    } else if c > i {
                        assert(l@[i as int] == '=');
                    }
                }
                let key = trim(slice_chars(l.as_slice(), 0, i).as_slice());
                let raw = trim(slice_chars(l.as_slice(), i + 1, l.len()).as_slice());
                let v1 = strip_char(raw.as_slice(), '"');
                let v2 = strip_char(v1.as_slice(), '\'');
                let ghost before = out@;
                out.push((string_of(key.as_slice()), string_of(v2.as_slice())));
                proof {
                    assert(l@.take(i as int) =~= l@.subrange(0, i as int));
                    assert(l@.skip(i + 1) =~= l@.subrange(i + 1, l@.len() as int));
                    assert(pair_views(out@) =~= pair_views(before).push(
                        (key@, v2@),
                    ));
                }
            } else {
                proof {
                    assert(!(exists|c: int| first_eq_index(l@, c)));
                }
            }
        }
        k = k + 1;
    }
    assert(lv.take(k as int) =~= lv);
    out
}

} // verus!
