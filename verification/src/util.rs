//! Small shared encoders: standard Base64 (RFC 4648, with `=` padding).

use vstd::prelude::*;
use crate::text::string_of;

verus! {

/// The Base64 digit for a value below 64: `A`–`Z`, `a`–`z`, `0`–`9`, `+`,
/// `/`.
pub open spec fn b64_digit(v: int) -> char {
    if v < 26 {
        (65 + v) as char
    } else if v < 52 {
        (97 + (v - 26)) as char
    } else if v < 62 {
        (48 + (v - 52)) as char
    } else if v == 62 {
        '+'
    } else {
        '/'
    }
}

/// Four digits for three bytes: their 24 bits in groups of six, most
/// significant first.
pub open spec fn group3(a: int, b: int, c: int) -> Seq<char> {
    seq![
        b64_digit(a / 4),
        b64_digit((a % 4) * 16 + b / 16),
        b64_digit((b % 16) * 4 + c / 64),
        b64_digit(c % 64),
    ]
}

/// The digits for a final single byte, padded with two `=`.
pub open spec fn tail1(a: int) -> Seq<char> {
    seq![b64_digit(a / 4), b64_digit((a % 4) * 16), '=', '=']
}

/// The digits for two final bytes, padded with one `=`.
pub open spec fn tail2(a: int, b: int) -> Seq<char> {
    seq![b64_digit(a / 4), b64_digit((a % 4) * 16 + b / 16), b64_digit((b % 16) * 4), '=']
}

/// The encoding of the first `n` whole groups of three bytes of `s`.
pub open spec fn full_groups(s: Seq<u8>, n: nat) -> Seq<char>
    decreases n,
{
    if n == 0 {
        Seq::empty()
    } else {
        let k = 3 * (n - 1);
        full_groups(s, (n - 1) as nat) + group3(s[k] as int, s[k + 1] as int, s[k + 2] as int)
    }
}

/// The Base64 text of `s`: each whole group of three bytes gives four
/// digits; one or two bytes left over give a padded final group.
pub open spec fn base64_spec(s: Seq<u8>) -> Seq<char> {
    let n = s.len() / 3;
    let k = 3 * n;
    full_groups(s, n) + if s.len() % 3 == 0 {
        Seq::empty()
    } else if s.len() % 3 == 1 {
        tail1(s[k as int] as int)
    } else {
        tail2(s[k as int] as int, s[k as int + 1] as int)
    }
}

fn digit(v: u8) -> (c: char)
    requires
        v < 64,
    ensures
        c == b64_digit(v as int),
{
    if v < 26 {
        (65 + v) as char
    } else if v < 52 {
        (97 + (v - 26)) as char
    } else if v < 62 {
        (48 + (v - 52)) as char
    } else if v == 62 {
        '+'
    } else {
        '/'
    }
}

/// Standard Base64 of `data`, padded.
pub fn base64_encode(data: &[u8]) -> (s: String)
    ensures
        s@ == base64_spec(data@),
{
    let len = data.len();
    let n = len / 3;
    let mut out: Vec<char> = Vec::new();
    let mut g: usize = 0;
    while g < n
        invariant
            n == data@.len() / 3,
            len == data@.len(),
            g <= n,
            out@ == full_groups(data@, g as nat),
        decreases n - g,
    {
        let i = 3 * g;
        let a = data[i];
        let b = data[i + 1];
        let c = data[i + 2];
        out.push(digit(a / 4));
        out.push(digit((a % 4) * 16 + b / 16));
        out.push(digit((b % 16) * 4 + c / 64));
        out.push(digit(c % 64));
        g = g + 1;
        proof {
            assert(out@ =~= full_groups(data@, g as nat));
        }
    }
    let k = 3 * n;
    let ghost body = out@;
    if len % 3 == 1 {
        let a = data[k];
        out.push(digit(a / 4));
        out.push(digit((a % 4) * 16));
        out.push('=');
        out.push('=');
        assert(out@ =~= body + tail1(data@[k as int] as int));
    } else if len % 3 == 2 {
        let a = data[k];
        let b = data[k + 1];
        out.push(digit(a / 4));
        out.push(digit((a % 4) * 16 + b / 16));
        out.push(digit((b % 16) * 4));
        out.push('=');
        assert(out@ =~= body + tail2(data@[k as int] as int, data@[k + 1] as int));
    } else {
        assert(out@ =~= body + Seq::<char>::empty());
    }
    string_of(out.as_slice())
}

/// Base64 text is four characters for every three bytes, rounded up.
pub proof fn lemma_base64_length(s: Seq<u8>)
    ensures
        base64_spec(s).len() == 4 * ((s.len() + 2) / 3),
{
    lemma_full_groups_length(s, s.len() / 3);
}

proof fn lemma_full_groups_length(s: Seq<u8>, n: nat)
    ensures
        full_groups(s, n).len() == 4 * n,
    decreases n,
{
    if n > 0 {
        lemma_full_groups_length(s, (n - 1) as nat);
    }
}

} // verus!
