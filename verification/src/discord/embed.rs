//! Text shaping for Discord messages: splitting long text into chunks that
//! respect a length limit, truncation with an ellipsis, and fallbacks for
//! blank values.

use vstd::prelude::*;
use crate::text::{
    append_chars, chars_of, concat_all, is_blank, lemma_concat_all_push, lemma_split_after,
    split_after, split_after_fold, string_of, string_views, strings_of, trim_spec, views,
};

verus! {

/// Characters after which `split_keep_ws` cuts: space and newline.
pub open spec fn word_sep() -> spec_fn(char) -> bool {
    |c: char| c == ' ' || c == '\n'
}

/// Splits `text` into words, each keeping the space or newline that ends it;
/// a trailing word without one is kept as it is.
pub fn split_keep_ws(text: &[char]) -> (parts: Vec<Vec<char>>)
    ensures
        views(parts@) == split_after(text@, word_sep()),
{
    let mut done: Vec<Vec<char>> = Vec::new();
    let mut cur: Vec<char> = Vec::new();
    let mut i: usize = 0;
    while i < text.len()
        invariant
            i <= text@.len(),
            (views(done@), cur@) == split_after_fold(text@.subrange(0, i as int), word_sep()),
        decreases text.len() - i,
    {
        let c = text[i];
        proof {
            assert(text@.subrange(0, i + 1).drop_last() =~= text@.subrange(0, i as int));
            assert(text@.subrange(0, i + 1).last() == c);
        }
        cur.push(c);
        if c == ' ' || c == '\n' {
            let ghost before = done@;
            done.push(cur);
            proof {
                assert(views(done@) =~= views(before).push(cur@));
            }
            cur = Vec::new();
        }
        i = i + 1;
    }
    assert(text@.subrange(0, text@.len() as int) =~= text@);
    if cur.len() > 0 {
        let ghost before = done@;
        done.push(cur);
        proof {
            assert(views(done@) =~= views(before).push(cur@));
        }
    }
    done
}

/// Chunking state: finished chunks and the chunk being filled.
pub type ChunkState = (Seq<Seq<char>>, Seq<char>);

/// One character of an oversized word: start a new chunk when the current
/// one is full.
pub open spec fn hard_split_step(st: ChunkState, ch: char, max: nat) -> ChunkState {
    if st.1.len() + 1 > max {
        (st.0.push(st.1), seq![ch])
    } else {
        (st.0, st.1.push(ch))
    }
}

/// An oversized word placed character by character.
pub open spec fn hard_split(st: ChunkState, word: Seq<char>, max: nat) -> ChunkState
    decreases word.len(),
{
    if word.len() == 0 {
        st
    } else {
        hard_split_step(hard_split(st, word.drop_last(), max), word.last(), max)
    }
}

/// One word: an oversized word closes the current chunk and is split by
/// characters; a word that does not fit closes the current chunk and starts
/// the next; otherwise it joins the current chunk.
pub open spec fn chunk_word(st: ChunkState, word: Seq<char>, max: nat) -> ChunkState {
    if word.len() > max {
        let st1 = if st.1.len() > 0 {
            (st.0.push(st.1), Seq::empty())
        } else {
            st
        };
        hard_split(st1, word, max)
    } else if st.1.len() + word.len() > max {
        (st.0.push(st.1), word)
    } else {
        (st.0, st.1 + word)
    }
}

/// All words, left to right, from no chunks.
pub open spec fn chunk_words(words: Seq<Seq<char>>, max: nat) -> ChunkState
    decreases words.len(),
{
    if words.len() == 0 {
        (Seq::empty(), Seq::empty())
    } else {
        chunk_word(chunk_words(words.drop_last(), max), words.last(), max)
    }
}

/// The limit actually used: at least one character.
pub open spec fn effective_max(max: nat) -> nat {
    if max == 0 {
        1
    } else {
        max
    }
}

/// What `chunk_text` returns: the words of `text` packed greedily into
/// chunks of at most `max` characters (at least 1), oversized words split
/// by characters; a single empty chunk when `text` is empty.
pub open spec fn chunk_spec(text: Seq<char>, max: nat) -> Seq<Seq<char>> {
    let (out, cur) = chunk_words(split_after(text, word_sep()), effective_max(max));
    let out2 = if cur.len() > 0 {
        out.push(cur)
    } else {
        out
    };
    if out2.len() == 0 {
        seq![Seq::empty()]
    } else {
        out2
    }
}

/// Every chunk is non-empty and at most `max` characters long.
pub open spec fn chunks_fit(out: Seq<Seq<char>>, max: nat) -> bool {
    forall|k: int| 0 <= k < out.len() ==> 0 < (#[trigger] out[k]).len() <= max
}

proof fn lemma_chunks_fit_push(out: Seq<Seq<char>>, x: Seq<char>, max: nat)
    requires
        chunks_fit(out, max),
        0 < x.len() <= max,
    ensures
        chunks_fit(out.push(x), max),
{
    assert forall|k: int| 0 <= k < out.push(x).len() implies 0 < (#[trigger] out.push(x)[k]).len()
        <= max by {
        if k < out.len() {
            assert(out.push(x)[k] == out[k]);
        }
    }
}

/// Closes the chunk being filled: moves `cur` onto `out`.
fn flush_chunk(out: &mut Vec<Vec<char>>, cur: &mut Vec<char>, Ghost(max): Ghost<nat>)
    requires
        0 < old(cur)@.len() <= max,
        chunks_fit(views(old(out)@), max),
    ensures
        views(final(out)@) == views(old(out)@).push(old(cur)@),
        final(cur)@ == Seq::<char>::empty(),
        chunks_fit(views(final(out)@), max),
        concat_all(views(final(out)@)) + final(cur)@ == concat_all(views(old(out)@)) + old(cur)@,
{
    let mut full: Vec<char> = Vec::new();
    std::mem::swap(&mut full, cur);
    let ghost before = out@;
    out.push(full);
    proof {
        assert(views(out@) =~= views(before).push(full@));
        lemma_chunks_fit_push(views(before), full@, max);
        lemma_concat_all_push(views(before), full@);
        assert(concat_all(views(out@)) + cur@ =~= concat_all(views(out@)));
    }
}

/// Splits `text` into chunks of at most `max` characters (at least 1),
/// breaking after spaces and newlines where possible and hard-splitting words
/// longer than a chunk. Chunks are never empty, except that empty `text`
/// gives one empty chunk; joined back together they are `text`.
pub fn chunk_text(text: &str, max: usize) -> (r: Vec<String>)
    ensures
        string_views(r@) == chunk_spec(text@, max as nat),
        concat_all(string_views(r@)) == text@,
        forall|k: int|
            0 <= k < r@.len() ==> (#[trigger] r@[k])@.len() <= effective_max(max as nat),
        text@.len() > 0 ==> chunks_fit(string_views(r@), effective_max(max as nat)),
        text@.len() == 0 ==> string_views(r@) == seq![Seq::<char>::empty()],
{
    let max: usize = if max == 0 {
        1
    } else {
        max
    };
    let ghost m = max as nat;
    let chars = chars_of(text);
    let words = split_keep_ws(chars.as_slice());
    let ghost ws = views(words@);
    proof {
        lemma_split_after(chars@, word_sep());
    }
    let mut out: Vec<Vec<char>> = Vec::new();
    let mut cur: Vec<char> = Vec::new();
    let mut w: usize = 0;
    while w < words.len()
        invariant
            w <= words@.len(),
            ws == views(words@),
            m == max,
            max >= 1,
            (views(out@), cur@) == chunk_words(ws.take(w as int), m),
            chunks_fit(views(out@), m),
            cur@.len() <= m,
            concat_all(views(out@)) + cur@ == concat_all(ws.take(w as int)),
        decreases words.len() - w,
    {
        let word = &words[w];
        let wlen = word.len();
        let ghost st = (views(out@), cur@);
        proof {
            assert(ws.take(w + 1).drop_last() =~= ws.take(w as int));
            assert(ws.take(w + 1).last() == word@);
            lemma_concat_all_push(ws.take(w as int), word@);
        }
        if wlen > max {
            if cur.len() > 0 {
                flush_chunk(&mut out, &mut cur, Ghost(m));
            }
            let ghost st1 = (views(out@), cur@);
            assert(st1 == if st.1.len() > 0 {
                (st.0.push(st.1), Seq::<char>::empty())
            } else {
                st
            });
            let mut j: usize = 0;
            while j < wlen
                invariant
                    j <= wlen,
                    wlen == word@.len(),
                    m == max,
                    max >= 1,
                    (views(out@), cur@) == hard_split(st1, word@.take(j as int), m),
                    chunks_fit(views(out@), m),
                    cur@.len() <= m,
                    concat_all(views(out@)) + cur@ == concat_all(st1.0) + st1.1 + word@.take(
                        j as int,
                    ),
                decreases wlen - j,
            {
                proof {
                    assert(word@.take(j + 1).drop_last() =~= word@.take(j as int));
                    assert(word@.take(j + 1).last() == word@[j as int]);
                }
                if cur.len() >= max {
                    flush_chunk(&mut out, &mut cur, Ghost(m));
                }
                let ghost before = cur@;
                cur.push(word[j]);
                proof {
                    assert(concat_all(views(out@)) + cur@ =~= concat_all(views(out@)) + before
                        + seq![word@[j as int]]);
                    assert(word@.take(j + 1) =~= word@.take(j as int) + seq![word@[j as int]]);
                    assert(concat_all(st1.0) + st1.1 + word@.take(j + 1) =~= concat_all(st1.0)
                        + st1.1 + word@.take(j as int) + seq![word@[j as int]]);
                }
                j = j + 1;
            }
            proof {
                assert(word@.take(wlen as int) =~= word@);
                assert(concat_all(st1.0) + st1.1 == concat_all(st.0) + st.1);
            }
        } else {
            if cur.len() > max - wlen {
                flush_chunk(&mut out, &mut cur, Ghost(m));
            }
            let ghost before = cur@;
            append_chars(&mut cur, word.as_slice());
            proof {
                assert(concat_all(views(out@)) + cur@ =~= concat_all(views(out@)) + before
                    + word@);
                if st.1.len() + word@.len() > m {
                    assert(before =~= Seq::<char>::empty());
                    assert(cur@ =~= word@);
                }
            }
        }
        proof {
            assert(concat_all(st.0) + st.1 + word@ =~= concat_all(ws.take(w + 1)));
        }
        w = w + 1;
    }
    proof {
        assert(ws.take(w as int) =~= ws);
    }
    if cur.len() > 0 {
        flush_chunk(&mut out, &mut cur, Ghost(m));
    } else {
        assert(concat_all(views(out@)) + cur@ =~= concat_all(views(out@)));
    }
    assert(concat_all(views(out@)) == text@);
    if out.len() == 0 {
        out.push(Vec::new());
        assert(views(out@) =~= seq![Seq::<char>::empty()]);
        assert(views(out@).drop_last() =~= Seq::<Seq<char>>::empty());
        assert(concat_all(views(out@)) =~= text@);
    }
    let r = strings_of(&out);
    proof {
        assert forall|k: int| 0 <= k < r@.len() implies (#[trigger] r@[k])@.len() <= m by {
            assert(string_views(r@)[k] == r@[k]@);
            assert(views(out@)[k] == out@[k]@);
        }
    }
    r
}

/// `s` cut to at most `max` characters, ending in an ellipsis when cut.
pub open spec fn truncate_spec(s: Seq<char>, max: nat) -> Seq<char> {
    if s.len() <= max {
        s
    } else {
        s.take(if max == 0 {
            0
        } else {
            max - 1
        }).push('…')
    }
}

/// `s` unchanged if it has at most `max` characters; otherwise its first
/// `max - 1` characters followed by `…`.
pub fn truncate_chars(s: &str, max: usize) -> (r: String)
    ensures
        r@ == truncate_spec(s@, max as nat),
{
    let chars = chars_of(s);
    if chars.len() <= max {
        string_of(chars.as_slice())
    } else {
        let keep: usize = if max == 0 {
            0
        } else {
            max - 1
        };
        let mut t: Vec<char> = Vec::new();
        let mut i: usize = 0;
        while i < keep
            invariant
                i <= keep,
                keep < chars@.len(),
                t@ == chars@.take(i as int),
            decreases keep - i,
        {
            t.push(chars[i]);
            proof {
                assert(chars@.take(i + 1) =~= chars@.take(i as int).push(chars@[i as int]));
            }
            i = i + 1;
        }
        t.push('…');
        string_of(t.as_slice())
    }
}

/// `fallback` when `s` is blank, else `s`.
pub open spec fn nonempty_spec(s: Seq<char>, fallback: Seq<char>) -> Seq<char> {
    if trim_spec(s).len() == 0 {
        fallback
    } else {
        s
    }
}

/// `s`, or `fallback` when `s` is empty or only white space.
pub fn nonempty(s: &str, fallback: &str) -> (r: String)
    ensures
        r@ == nonempty_spec(s@, fallback@),
{
    let chars = chars_of(s);
    if is_blank(chars.as_slice()) {
        string_of(chars_of(fallback).as_slice())
    } else {
        string_of(chars.as_slice())
    }
}

} // verus!

use crate::text::{decimal, decimal_chars, join, join_spec};
use crate::types::{KeyMoment, StreamInfo};

verus! {

/// Longest embed description Discord accepts.
pub const EMBED_DESC_LIMIT: usize = 4096;

/// Longest embed field value Discord accepts.
pub const FIELD_VALUE_LIMIT: usize = 1024;

/// Longest plain message Discord accepts.
pub const CONTENT_LIMIT: usize = 2000;

/// Most embeds sent for one summary.
pub const MAX_SUMMARY_EMBEDS: usize = 8;

/// One field of an embed.
#[derive(Debug, Clone)]
pub struct EmbedField {
    pub name: String,
    pub value: String,
    pub inline: bool,
}

/// One rich embed of a webhook message.
#[derive(Debug, Clone)]
pub struct Embed {
    pub title: Option<String>,
    pub url: Option<String>,
    pub description: Option<String>,
    pub color: u32,
    pub fields: Option<Vec<EmbedField>>,
    pub timestamp: Option<String>,
}

/// A webhook message: rich embeds, or plain content.
#[derive(Debug, Clone)]
pub enum Payload {
    Embeds(Vec<Embed>),
    Content(String),
}

/// What a summary insight contributes to its message. The sentiment score
/// arrives already formatted (signed, two decimals).
#[derive(Debug, Clone)]
pub struct InsightFields {
    pub topics: Vec<String>,
    pub mood: String,
    pub score_text: String,
    pub key_moments: Vec<KeyMoment>,
    pub running_summary: String,
}

/// Abstract field.
pub struct FieldView {
    pub name: Seq<char>,
    pub value: Seq<char>,
    pub inline: bool,
}

/// Abstract embed.
pub struct EmbedView {
    pub title: Option<Seq<char>>,
    pub url: Option<Seq<char>>,
    pub description: Option<Seq<char>>,
    pub color: u32,
    pub fields: Option<Seq<FieldView>>,
    pub timestamp: Option<Seq<char>>,
}

/// Abstract payload.
pub enum PayloadView {
    Embeds(Seq<EmbedView>),
    Content(Seq<char>),
}

/// The view of an optional string.
pub open spec fn opt_view(o: Option<String>) -> Option<Seq<char>> {
    match o {
        Some(s) => Some(s@),
        None => None,
    }
}

impl View for EmbedField {
    type V = FieldView;

    open spec fn view(&self) -> FieldView {
        FieldView { name: self.name@, value: self.value@, inline: self.inline }
    }
}

impl View for Embed {
    type V = EmbedView;

    open spec fn view(&self) -> EmbedView {
        EmbedView {
            title: opt_view(self.title),
            url: opt_view(self.url),
            description: opt_view(self.description),
            color: self.color,
            fields: match self.fields {
                Some(f) => Some(f@.map_values(|x: EmbedField| x@)),
                None => None,
            },
            timestamp: opt_view(self.timestamp),
        }
    }
}

impl View for Payload {
    type V = PayloadView;

    open spec fn view(&self) -> PayloadView {
        match self {
            Payload::Embeds(es) => PayloadView::Embeds(es@.map_values(|e: Embed| e@)),
            Payload::Content(c) => PayloadView::Content(c@),
        }
    }
}

/// The line for one key moment: a bullet, the timestamp in backticks, the
/// note.
pub open spec fn moment_line(m: KeyMoment) -> Seq<char> {
    "• `"@ + m.timestamp@ + "` "@ + m.note@
}

/// The fields of a summary embed: topics, chat mood and key moments, each
/// present only when there is something to show.
pub open spec fn insight_fields_spec(i: InsightFields) -> Seq<FieldView> {
    let topics = if i.topics@.len() > 0 {
        seq![
            FieldView {
                name: "Tópicos"@,
                value: truncate_spec(
                    join_spec(string_views(i.topics@), ", "@),
                    FIELD_VALUE_LIMIT as nat,
                ),
                inline: false,
            },
        ]
    } else {
        Seq::empty()
    };
    let mood = if i.mood@.len() > 0 {
        seq![
            FieldView {
                name: "Clima do chat"@,
                value: i.mood@ + " ("@ + i.score_text@ + ")"@,
                inline: true,
            },
        ]
    } else {
        Seq::empty()
    };
    let moments = if i.key_moments@.len() > 0 {
        seq![
            FieldView {
                name: "Momentos"@,
                value: truncate_spec(
                    join_spec(i.key_moments@.map_values(|m: KeyMoment| moment_line(m)), "\n"@),
                    FIELD_VALUE_LIMIT as nat,
                ),
                inline: false,
            },
        ]
    } else {
        Seq::empty()
    };
    topics + mood + moments
}

/// The summary message: the running summary split into chunks of at most
/// 4096 characters, at most 8 of them, one embed each; the first embed also
/// carries the title and the fields.
pub open spec fn insight_payload_spec(channel: Seq<char>, i: InsightFields) -> PayloadView {
    let chunks = chunk_spec(i.running_summary@, EMBED_DESC_LIMIT as nat);
    let n = if chunks.len() <= MAX_SUMMARY_EMBEDS {
        chunks.len()
    } else {
        MAX_SUMMARY_EMBEDS as nat
    };
    PayloadView::Embeds(
        Seq::new(
            n,
            |k: int|
                EmbedView {
                    title: if k == 0 {
                        Some("📋 Resumo — "@ + channel)
                    } else {
                        None
                    },
                    url: None,
                    description: Some(chunks[k]),
                    color: 0x9146FF,
                    fields: if k == 0 {
                        Some(insight_fields_spec(i))
                    } else {
                        None
                    },
                    timestamp: None,
                },
        ),
    )
}

fn moments_text(moments: &Vec<KeyMoment>) -> (s: String)
    ensures
        s@ == join_spec(moments@.map_values(|m: KeyMoment| moment_line(m)), "\n"@),
{
    let mut lines: Vec<String> = Vec::new();
    let mut i: usize = 0;
    while i < moments.len()
        invariant
            i <= moments@.len(),
            lines@.len() == i,
            forall|j: int| 0 <= j < i ==> (#[trigger] lines@[j])@ == moment_line(moments@[j]),
        decreases moments.len() - i,
    {
        let mut l = String::new();
        l.append("• `");
        l.append(moments[i].timestamp.as_str());
        l.append("` ");
        l.append(moments[i].note.as_str());
        proof {
            assert(l@ =~= moment_line(moments@[i as int]));
        }
        lines.push(l);
        i = i + 1;
    }
    assert(string_views(lines@) =~= moments@.map_values(|m: KeyMoment| moment_line(m)));
    join(&lines, "\n")
}

fn insight_fields(i: &InsightFields) -> (f: Vec<EmbedField>)
    ensures
        f@.map_values(|x: EmbedField| x@) == insight_fields_spec(*i),
{
    let mut fields: Vec<EmbedField> = Vec::new();
    let ghost mut expect: Seq<FieldView> = Seq::empty();
    if i.topics.len() > 0 {
        let joined = join(&i.topics, ", ");
        let value = truncate_chars(joined.as_str(), FIELD_VALUE_LIMIT);
        let f = EmbedField { name: "Tópicos".to_owned(), value, inline: false };
        proof {
            expect = expect.push(f@);
        }
        fields.push(f);
    }
    if !i.mood.as_str().is_empty() {
        let mut value = String::new();
        value.append(i.mood.as_str());
        value.append(" (");
        value.append(i.score_text.as_str());
        value.append(")");
        let f = EmbedField { name: "Clima do chat".to_owned(), value, inline: true };
        proof {
            expect = expect.push(f@);
        }
        fields.push(f);
    }
    if i.key_moments.len() > 0 {
        let joined = moments_text(&i.key_moments);
        let value = truncate_chars(joined.as_str(), FIELD_VALUE_LIMIT);
        let f = EmbedField { name: "Momentos".to_owned(), value, inline: false };
        proof {
            expect = expect.push(f@);
        }
        fields.push(f);
    }
    proof {
        assert(fields@.map_values(|x: EmbedField| x@) =~= expect);
        assert(expect =~= insight_fields_spec(*i));
    }
    fields
}

/// The summary message for `channel` (see `insight_payload_spec`).
pub fn insight_payload(channel: &str, insight: &InsightFields) -> (p: Payload)
    ensures
        p@ == insight_payload_spec(channel@, *insight),
{
    let chunks = chunk_text(insight.running_summary.as_str(), EMBED_DESC_LIMIT);
    let ghost cs = string_views(chunks@);
    let n = if chunks.len() <= MAX_SUMMARY_EMBEDS {
        chunks.len()
    } else {
        MAX_SUMMARY_EMBEDS
    };
    let mut embeds: Vec<Embed> = Vec::new();
    let mut k: usize = 0;
    while k < n
        invariant
            k <= n,
            n <= chunks@.len(),
            cs == string_views(chunks@),
            cs == chunk_spec(insight.running_summary@, EMBED_DESC_LIMIT as nat),
            embeds@.len() == k,
            forall|j: int|
                0 <= j < k ==> (#[trigger] embeds@[j])@ == (EmbedView {
                    title: if j == 0 {
                        Some("📋 Resumo — "@ + channel@)
                    } else {
                        None
                    },
                    url: None,
                    description: Some(cs[j]),
                    color: 0x9146FF,
                    fields: if j == 0 {
                        Some(insight_fields_spec(*insight))
                    } else {
                        None
                    },
                    timestamp: None,
                }),
        decreases n - k,
    {
        let description = chunks[k].clone();
        let (title, fields) = if k == 0 {
            let mut t = String::new();
            t.append("📋 Resumo — ");
            t.append(channel);
            (Some(t), Some(insight_fields(insight)))
        } else {
            (None, None)
        };
        let e = Embed {
            title,
            url: None,
            description: Some(description),
            color: 0x9146FF,
            fields,
            timestamp: None,
        };
        proof {
            assert(cs[k as int] == chunks@[k as int]@);
        }
        embeds.push(e);
        k = k + 1;
    }
    let p = Payload::Embeds(embeds);
    proof {
        if let PayloadView::Embeds(ev) = insight_payload_spec(channel@, *insight) {
            assert(embeds@.map_values(|e: Embed| e@) =~= ev);
        }
    }
    p
}

/// The go-live message for `channel`: title, channel link, red, and fields
/// for the stream title, category and viewer count (blank values shown as
/// `—`), plus the start time when known.
pub open spec fn golive_payload_spec(channel: Seq<char>, info: StreamInfo) -> PayloadView {
    PayloadView::Embeds(
        seq![
            EmbedView {
                title: Some("🔴 "@ + channel + " está AO VIVO!"@),
                url: Some("https://twitch.tv/"@ + channel),
                description: None,
                color: 0xFF0000,
                fields: Some(
                    seq![
                        FieldView {
                            name: "Título"@,
                            value: truncate_spec(
                                nonempty_spec(info.title@, "—"@),
                                FIELD_VALUE_LIMIT as nat,
                            ),
                            inline: false,
                        },
                        FieldView {
                            name: "Categoria"@,
                            value: nonempty_spec(info.game@, "—"@),
                            inline: true,
                        },
                        FieldView {
                            name: "Viewers"@,
                            value: decimal(info.viewers as nat),
                            inline: true,
                        },
                    ],
                ),
                timestamp: if trim_spec(info.started_at@).len() > 0 {
                    Some(info.started_at@)
                } else {
                    None
                },
            },
        ],
    )
}

/// The go-live message (see `golive_payload_spec`).
pub fn golive_payload(channel: &str, info: &StreamInfo) -> (p: Payload)
    ensures
        p@ == golive_payload_spec(channel@, *info),
{
    let mut title = String::new();
    title.append("🔴 ");
    title.append(channel);
    title.append(" está AO VIVO!");
    let mut url = String::new();
    url.append("https://twitch.tv/");
    url.append(channel);
    let t = nonempty(info.title.as_str(), "—");
    let mut fields: Vec<EmbedField> = Vec::new();
    fields.push(
        EmbedField {
            name: "Título".to_owned(),
            value: truncate_chars(t.as_str(), FIELD_VALUE_LIMIT),
            inline: false,
        },
    );
    fields.push(
        EmbedField {
            name: "Categoria".to_owned(),
            value: nonempty(info.game.as_str(), "—"),
            inline: true,
        },
    );
    fields.push(
        EmbedField {
            name: "Viewers".to_owned(),
            value: string_of(decimal_chars(info.viewers).as_slice()),
            inline: true,
        },
    );
    let timestamp = if is_blank(chars_of(info.started_at.as_str()).as_slice()) {
        None
    } else {
        Some(info.started_at.clone())
    };
    let e = Embed {
        title: Some(title),
        url: Some(url),
        description: None,
        color: 0xFF0000,
        fields: Some(fields),
        timestamp,
    };
    let mut embeds: Vec<Embed> = Vec::new();
    embeds.push(e);
    let p = Payload::Embeds(embeds);
    proof {
        if let PayloadView::Embeds(ev) = golive_payload_spec(channel@, *info) {
            assert(e@.fields.unwrap() =~= ev[0].fields.unwrap());
            assert(embeds@.map_values(|x: Embed| x@) =~= ev);
        }
    }
    p
}

/// Two-digit rendering of `m < 100`, zero-padded.
pub open spec fn two_digits(m: nat) -> Seq<char> {
    if m < 10 {
        "0"@ + decimal(m)
    } else {
        decimal(m)
    }
}

/// The stream-ended message: title and `Duração: <h>h<mm>m`, grey.
pub open spec fn offline_payload_spec(channel: Seq<char>, duration_secs: u64) -> PayloadView {
    let h = duration_secs as nat / 3600;
    let m = (duration_secs as nat % 3600) / 60;
    PayloadView::Embeds(
        seq![
            EmbedView {
                title: Some("⚫ "@ + channel + " encerrou a stream"@),
                url: None,
                description: Some("Duração: "@ + decimal(h) + "h"@ + two_digits(m) + "m"@),
                color: 0x555555,
                fields: None,
                timestamp: None,
            },
        ],
    )
}

/// The stream-ended message (see `offline_payload_spec`).
pub fn offline_payload(channel: &str, duration_secs: u64) -> (p: Payload)
    ensures
        p@ == offline_payload_spec(channel@, duration_secs),
{
    let h = duration_secs / 3600;
    let m = (duration_secs % 3600) / 60;
    let mut title = String::new();
    title.append("⚫ ");
    title.append(channel);
    title.append(" encerrou a stream");
    let mut d = String::new();
    d.append("Duração: ");
    d.append(string_of(decimal_chars(h).as_slice()).as_str());
    d.append("h");
    if m < 10 {
        d.append("0");
    }
    d.append(string_of(decimal_chars(m).as_slice()).as_str());
    d.append("m");
    let e = Embed {
        title: Some(title),
        url: None,
        description: Some(d),
        color: 0x555555,
        fields: None,
        timestamp: None,
    };
    let mut embeds: Vec<Embed> = Vec::new();
    embeds.push(e);
    let p = Payload::Embeds(embeds);
    proof {
        if let PayloadView::Embeds(ev) = offline_payload_spec(channel@, duration_secs) {
            assert(e@.description.unwrap() =~= ev[0].description.unwrap());
            assert(embeds@.map_values(|x: Embed| x@) =~= ev);
        }
    }
    p
}

/// A plain notice, cut to Discord's message limit.
pub fn notice_payload(text: &str) -> (p: Payload)
    ensures
        p@ == PayloadView::Content(truncate_spec(text@, CONTENT_LIMIT as nat)),
{
    Payload::Content(truncate_chars(text, CONTENT_LIMIT))
}

/// The summary message always has a first embed, titled for the channel,
/// and its fields are decided by the insight alone: a `Tópicos` field comes
/// first exactly when there are topics, holding them joined by `, ` (cut
/// to the field limit), whatever the mood and key moments; no other field
/// is named `Tópicos`.
pub proof fn lemma_topics_field(channel: Seq<char>, i: InsightFields)
    ensures
        match insight_payload_spec(channel, i) {
            PayloadView::Embeds(es) => es.len() >= 1 && es[0].title == Some("📋 Resumo — "@ + channel)
                && match es[0].fields {
                Some(fs) => {
                    &&& (i.topics@.len() > 0 <==> (fs.len() > 0 && fs[0].name == "Tópicos"@))
                    &&& (i.topics@.len() > 0 ==> fs[0] == (FieldView {
                        name: "Tópicos"@,
                        value: truncate_spec(join_spec(string_views(i.topics@), ", "@), 1024),
                        inline: false,
                    }))
                    &&& forall|k: int| 0 < k < fs.len() ==> (#[trigger] fs[k]).name != "Tópicos"@
                },
                None => false,
            },
            PayloadView::Content(_) => false,
        },
{
    reveal_strlit("Tópicos");
    reveal_strlit("Clima do chat");
    reveal_strlit("Momentos");
    let chunks = chunk_spec(i.running_summary@, EMBED_DESC_LIMIT as nat);
    assert(chunks.len() >= 1);
    let fs = insight_fields_spec(i);
    assert("Clima do chat"@[0] != "Tópicos"@[0]);
    assert("Momentos"@[1] != "Tópicos"@[1]);
    assert(forall|k: int| 0 <= k < fs.len() ==> #[trigger] fs[k].name == "Tópicos"@ || fs[k].name
        == "Clima do chat"@ || fs[k].name == "Momentos"@);
}

} // verus!
