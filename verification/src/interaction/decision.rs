//! Pure decision helpers for the interaction engine: mention detection, the
//! easter-egg target, and the proactive-message interval. Time is passed in;
//! the easter egg's random roll is compared in the app.

use vstd::prelude::*;
use crate::clock::{elapsed, Duration, Instant};
use crate::text::{
    alphanumeric, chars_eq, chars_of, contains, contains_seq, is_alphanumeric, lowercase,
    to_lowercase, views,
};

verus! {

/// Characters that separate words in a chat line: anything that is neither
/// alphanumeric nor `_`.
pub open spec fn word_break() -> spec_fn(char) -> bool {
    |c: char| !(alphanumeric(c) || c == '_')
}

/// Left-to-right split at separators, as `(finished pieces, current piece)`.
pub open spec fn split_fold(s: Seq<char>, sep: spec_fn(char) -> bool) -> (Seq<Seq<char>>, Seq<char>)
    decreases s.len(),
{
    if s.len() == 0 {
        (Seq::empty(), Seq::empty())
    } else {
        let (done, cur) = split_fold(s.drop_last(), sep);
        if sep(s.last()) {
            (done.push(cur), Seq::empty())
        } else {
            (done, cur.push(s.last()))
        }
    }
}

/// The pieces between separators, empty pieces included (`str::split`).
pub open spec fn split_spec(s: Seq<char>, sep: spec_fn(char) -> bool) -> Seq<Seq<char>> {
    let (done, cur) = split_fold(s, sep);
    done.push(cur)
}

/// `text` addresses the bot `bot`: the bot name is not empty and, both
/// lowercased, `text` contains `@bot` or has `bot` as one of its words.
pub open spec fn mention_spec(text: Seq<char>, bot: Seq<char>) -> bool {
    let t = lowercase(text);
    let b = lowercase(bot);
    &&& bot.len() > 0
    &&& (contains_seq(t, seq!['@'] + b) || split_spec(t, word_break()).contains(b))
}

/// Splitting `p + w`, where `w` holds no separator, leaves the finished
/// pieces of `p` and extends its current piece by `w`.
proof fn lemma_split_fold_extend(p: Seq<char>, w: Seq<char>, sep: spec_fn(char) -> bool)
    requires
        forall|k: int| 0 <= k < w.len() ==> !sep(#[trigger] w[k]),
    ensures
        split_fold(p + w, sep) == (split_fold(p, sep).0, split_fold(p, sep).1 + w),
    decreases w.len(),
{
    if w.len() == 0 {
        assert(p + w =~= p);
        assert(split_fold(p, sep).1 + w =~= split_fold(p, sep).1);
    } else {
        let w0 = w.drop_last();
        assert forall|k: int| 0 <= k < w0.len() implies !sep(#[trigger] w0[k]) by {
            assert(w0[k] == w[k]);
        }
        lemma_split_fold_extend(p, w0, sep);
        assert((p + w).drop_last() =~= p + w0);
        assert((p + w).last() == w.last());
        assert(split_fold(p, sep).1 + w0 + seq![w.last()] =~= split_fold(p, sep).1 + w);
        assert((split_fold(p, sep).1 + w0).push(w.last()) =~= split_fold(p, sep).1 + w0 + seq![
            w.last(),
        ]);
    }
}

/// Splitting never forgets a finished piece: what is finished after `p` is
/// still finished after `p + q`.
proof fn lemma_split_fold_keeps(p: Seq<char>, q: Seq<char>, sep: spec_fn(char) -> bool, w: Seq<char>)
    requires
        split_fold(p, sep).0.contains(w),
    ensures
        split_fold(p + q, sep).0.contains(w),
    decreases q.len(),
{
    if q.len() == 0 {
        assert(p + q =~= p);
    } else {
        lemma_split_fold_keeps(p, q.drop_last(), sep, w);
        assert((p + q).drop_last() =~= p + q.drop_last());
        let done = split_fold(p + q.drop_last(), sep).0;
        let j = choose|j: int| 0 <= j < done.len() && done[j] == w;
        assert(done.push(split_fold(p + q.drop_last(), sep).1)[j] == w);
    }
}

/// A login standing as a whole word is a mention: when the lowercased text
/// is `x + login + y` (both lowercased), the login is not empty and holds
/// no word separator, and it is bounded on each side by the text's edge or
/// a separator (anything but a letter, digit or `_`), the text mentions the
/// bot. In particular it does when the lowercased text is `w + " " + login`
/// or `login + " " + w`.
pub proof fn lemma_word_is_mention(text: Seq<char>, bot: Seq<char>, x: Seq<char>, y: Seq<char>)
    requires
        bot.len() > 0,
        lowercase(text) == x + lowercase(bot) + y,
        forall|k: int|
            0 <= k < lowercase(bot).len() ==> !(word_break())(#[trigger] lowercase(bot)[k]),
        x.len() == 0 || (word_break())(x.last()),
        y.len() == 0 || (word_break())(y[0]),
    ensures
        mention_spec(text, bot),
{
    let b = lowercase(bot);
    let t = lowercase(text);
    let sep = word_break();
    assert(x.len() == 0 ==> split_fold(x, sep) == (Seq::<Seq<char>>::empty(), Seq::<char>::empty()));
    assert(split_fold(x, sep).1 == Seq::<char>::empty());
    lemma_split_fold_extend(x, b, sep);
    assert(Seq::<char>::empty() + b =~= b);
    let xb = x + b;
    if y.len() == 0 {
        assert(t =~= xb);
        let pieces = split_spec(t, sep);
        assert(pieces.last() == b);
        assert(pieces[pieces.len() - 1] == b);
    } else {
        let xb1 = xb.push(y[0]);
        assert(xb1.drop_last() =~= xb);
        assert(split_fold(xb1, sep).0 == split_fold(xb, sep).0.push(b));
        assert(split_fold(xb1, sep).0[split_fold(xb1, sep).0.len() - 1] == b);
        assert(split_fold(xb1, sep).0.contains(b));
        lemma_split_fold_keeps(xb1, y.drop_first(), sep, b);
        assert(xb1 + y.drop_first() =~= t);
        let done = split_fold(t, sep).0;
        let j = choose|j: int| 0 <= j < done.len() && done[j] == b;
        assert(split_spec(t, sep)[j] == b);
    }
}

fn split_words(t: &[char]) -> (r: Vec<Vec<char>>)
    ensures
        views(r@) == split_spec(t@, word_break()),
{
    let mut done: Vec<Vec<char>> = Vec::new();
    let mut cur: Vec<char> = Vec::new();
    let mut i: usize = 0;
    while i < t.len()
        invariant
            i <= t@.len(),
            (views(done@), cur@) == split_fold(t@.subrange(0, i as int), word_break()),
        decreases t.len() - i,
    {
        let c = t[i];
        proof {
            assert(t@.subrange(0, i + 1).drop_last() =~= t@.subrange(0, i as int));
            assert(t@.subrange(0, i + 1).last() == c);
        }
        if !(is_alphanumeric(c) || c == '_') {
            let ghost before = done@;
            done.push(cur);
            proof {
                assert(views(done@) =~= views(before).push(cur@));
            }
            cur = Vec::new();
        } else {
            cur.push(c);
        }
        i = i + 1;
    }
    assert(t@.subrange(0, t@.len() as int) =~= t@);
    let ghost before = done@;
    done.push(cur);
    proof {
        assert(views(done@) =~= views(before).push(cur@));
    }
    done
}

/// True if `text` addresses the bot by `@login` or as a standalone word.
pub fn is_mention(text: &str, bot_login: &str) -> (b: bool)
    ensures
        b == mention_spec(text@, bot_login@),
{
    let bot = chars_of(bot_login);
    if bot.len() == 0 {
        return false;
    }
    let t = to_lowercase(chars_of(text).as_slice());
    let b = to_lowercase(bot.as_slice());
    let mut at_b: Vec<char> = Vec::new();
    at_b.push('@');
    let mut k: usize = 0;
    while k < b.len()
        invariant
            k <= b@.len(),
            at_b@ == seq!['@'] + b@.subrange(0, k as int),
        decreases b.len() - k,
    {
        at_b.push(b[k]);
        proof {
            assert(seq!['@'] + b@.subrange(0, k + 1) =~= (seq!['@'] + b@.subrange(0, k as int)).push(
                b@[k as int],
            ));
        }
        k = k + 1;
    }
    assert(b@.subrange(0, b@.len() as int) =~= b@);
    if contains(t.as_slice(), at_b.as_slice()) {
        return true;
    }
    let words = split_words(t.as_slice());
    let mut i: usize = 0;
    while i < words.len()
        invariant
            i <= words@.len(),
            views(words@) == split_spec(t@, word_break()),
            t@ == lowercase(text@),
            b@ == lowercase(bot_login@),
            bot_login@.len() > 0,
            forall|j: int| 0 <= j < i ==> (#[trigger] words@[j])@ != b@,
        decreases words.len() - i,
    {
        if chars_eq(words[i].as_slice(), b.as_slice()) {
            proof {
                assert(views(words@)[i as int] == b@);
                assert(split_spec(t@, word_break()).contains(b@));
            }
            return true;
        }
        i = i + 1;
    }
    proof {
        if views(words@).contains(b@) {
            let j = choose|j: int| 0 <= j < views(words@).len() && views(words@)[j] == b@;
            assert(words@[j]@ == b@);
        }
    }
    false
}

/// `c` with ASCII upper case letters lowered; every other character kept.
pub open spec fn ascii_lower(c: char) -> char {
    if 'A' <= c <= 'Z' {
        (c as int + 32) as char
    } else {
        c
    }
}

/// `a` and `b` are equal up to ASCII case (`str::eq_ignore_ascii_case`).
pub open spec fn eq_ignore_ascii_case_spec(a: Seq<char>, b: Seq<char>) -> bool {
    a.len() == b.len() && forall|i: int| 0 <= i < a.len() ==> ascii_lower(a[i]) == ascii_lower(b[i])
}

fn lower_ascii(c: char) -> (r: char)
    ensures
        r == ascii_lower(c),
{
    if 'A' <= c && c <= 'Z' {
        ((c as u8) + 32) as char
    } else {
        c
    }
}

/// True if `login` is the configured easter-egg target: the target is set
/// and equals the login up to ASCII case.
pub fn is_easter_egg_target(login: &str, target: &str) -> (b: bool)
    ensures
        b == (target@.len() > 0 && eq_ignore_ascii_case_spec(login@, target@)),
{
    let t = chars_of(target);
    if t.len() == 0 {
        return false;
    }
    let l = chars_of(login);
    if l.len() != t.len() {
        return false;
    }
    let mut i: usize = 0;
    while i < l.len()
        invariant
            l@ == login@,
            t@ == target@,
            l@.len() == t@.len(),
            i <= l@.len(),
            forall|j: int| 0 <= j < i ==> ascii_lower(l@[j]) == ascii_lower(t@[j]),
        decreases l.len() - i,
    {
        if lower_ascii(l[i]) != lower_ascii(t[i]) {
            return false;
        }
        i = i + 1;
    }
    true
}

/// True if at least `min_interval` has elapsed from `last` to `now`.
pub fn proactive_due(now: Instant, last: Instant, min_interval: Duration) -> (b: bool)
    ensures
        b == (elapsed(last@, now@) >= min_interval@),
{
    min_interval.le(&now.duration_since(last))
}

} // verus!
