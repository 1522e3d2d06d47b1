//! Bounded rolling context window of chat + transcript, capped by both
//! wall-clock age and an approximate token budget. Oldest entries are evicted
//! first.

use std::collections::VecDeque;
use vstd::prelude::*;
use crate::clock::{elapsed, Duration, Instant};
use crate::text::chars_of;

verus! {

/// Where a window entry came from.
#[derive(Debug, Clone, Copy, PartialEq, Eq, Structural)]
pub enum Source {
    Chat,
    Transcript,
}

#[derive(Debug, Clone)]
struct Entry {
    source: Source,
    who: String,
    text: String,
    at: Instant,
    tokens: usize,
    summarized: bool,
}

/// The abstract value of one entry.
pub struct EntryView {
    pub source: Source,
    pub who: Seq<char>,
    pub text: Seq<char>,
    pub at: int,
    pub tokens: nat,
    pub summarized: bool,
}

/// The abstract value of a window: its limits and its entries, oldest first.
pub struct WindowView {
    pub max_age: int,
    pub max_tokens: nat,
    pub entries: Seq<EntryView>,
}

impl Entry {
    spec fn view(&self) -> EntryView {
        EntryView {
            source: self.source,
            who: self.who@,
            text: self.text@,
            at: self.at@,
            tokens: self.tokens as nat,
            summarized: self.summarized,
        }
    }
}

/// Rough token estimate for a text of `n` characters: one per four
/// characters, at least one.
pub open spec fn estimate_tokens_spec(n: nat) -> nat {
    if n / 4 >= 1 {
        n / 4
    } else {
        1
    }
}

/// Rough token estimate (~4 chars/token). Good enough for budgeting.
pub fn estimate_tokens(text: &str) -> (n: usize)
    ensures
        n as nat == estimate_tokens_spec(text@.len()),
{
    let chars = chars_of(text);
    let q = chars.len() / 4;
    if q >= 1 {
        q
    } else {
        1
    }
}

/// Sum of the token counts of `es`.
pub open spec fn total_tokens(es: Seq<EntryView>) -> nat
    decreases es.len(),
{
    if es.len() == 0 {
        0
    } else {
        total_tokens(es.drop_last()) + es.last().tokens
    }
}

/// Sum of the token counts of the entries of `es` not yet summarized.
pub open spec fn pending_tokens(es: Seq<EntryView>) -> nat
    decreases es.len(),
{
    if es.len() == 0 {
        0
    } else {
        pending_tokens(es.drop_last()) + if es.last().summarized {
            0
        } else {
            es.last().tokens
        }
    }
}

/// Whether an entry is too old at `now` or the window is over budget.
pub open spec fn must_evict_front(es: Seq<EntryView>, now: int, max_age: int, max_tokens: nat) -> bool {
    es.len() > 0 && (elapsed(es[0].at, now) > max_age || total_tokens(es) > max_tokens)
}

/// `es` after dropping entries from the front while the front entry is
/// older than `max_age` at `now` or the total exceeds `max_tokens`.
pub open spec fn evict_spec(es: Seq<EntryView>, now: int, max_age: int, max_tokens: nat) -> Seq<
    EntryView,
>
    decreases es.len(),
{
    if must_evict_front(es, now, max_age, max_tokens) {
        evict_spec(es.drop_first(), now, max_age, max_tokens)
    } else {
        es
    }
}

/// The text sent for one entry: `[chat] who: text` or `[fala] text`, then a
/// newline; nothing once summarized.
pub open spec fn entry_line(e: EntryView) -> Seq<char> {
    if e.summarized {
        Seq::empty()
    } else {
        match e.source {
            Source::Chat => "[chat] "@ + e.who + ": "@ + e.text + "\n"@,
            Source::Transcript => "[fala] "@ + e.text + "\n"@,
        }
    }
}

/// The lines of all entries not yet summarized, oldest first.
pub open spec fn delta_spec(es: Seq<EntryView>) -> Seq<char>
    decreases es.len(),
{
    if es.len() == 0 {
        Seq::empty()
    } else {
        delta_spec(es.drop_last()) + entry_line(es.last())
    }
}

/// `e` marked as summarized.
pub open spec fn summarized_entry(e: EntryView) -> EntryView {
    EntryView { summarized: true, ..e }
}

/// All entries of `es` marked as summarized.
pub open spec fn mark_all(es: Seq<EntryView>) -> Seq<EntryView> {
    Seq::new(es.len(), |i: int| summarized_entry(es[i]))
}

/// The entry a push adds.
pub open spec fn new_entry(source: Source, who: Seq<char>, text: Seq<char>, at: int) -> EntryView {
    EntryView {
        source,
        who,
        text,
        at,
        tokens: estimate_tokens_spec(text.len()),
        summarized: false,
    }
}

/// The token total of a non-empty sequence splits into its first entry
/// and the rest.
pub proof fn lemma_total_first(es: Seq<EntryView>)
    requires
        es.len() > 0,
    ensures
        total_tokens(es) == es[0].tokens + total_tokens(es.drop_first()),
    decreases es.len(),
{
    if es.len() > 1 {
        lemma_total_first(es.drop_last());
        assert(es.drop_first().drop_last() =~= es.drop_last().drop_first());
        assert(es.drop_first().last() == es.last());
        assert(es.drop_last()[0] == es[0]);
    } else {
        assert(es.drop_first() =~= Seq::<EntryView>::empty());
        assert(es.drop_last() =~= Seq::<EntryView>::empty());
        assert(es.last() == es[0]);
    }
}

/// Pending tokens never exceed the total.
pub proof fn lemma_pending_le_total(es: Seq<EntryView>)
    ensures
        pending_tokens(es) <= total_tokens(es),
    decreases es.len(),
{
    if es.len() > 0 {
        lemma_pending_le_total(es.drop_last());
    }
}

/// Eviction keeps a suffix of the entries (the oldest go first), and what
/// it keeps is within the token budget.
pub proof fn lemma_evict_suffix(es: Seq<EntryView>, now: int, max_age: int, max_tokens: nat) -> (k: int)
    ensures
        0 <= k <= es.len(),
        evict_spec(es, now, max_age, max_tokens) == es.subrange(k, es.len() as int),
        total_tokens(evict_spec(es, now, max_age, max_tokens)) <= max_tokens,
    decreases es.len(),
{
    if must_evict_front(es, now, max_age, max_tokens) {
        let k = lemma_evict_suffix(es.drop_first(), now, max_age, max_tokens);
        assert(es.drop_first().subrange(k, es.drop_first().len() as int) =~= es.subrange(
            k + 1,
            es.len() as int,
        ));
        k + 1
    } else {
        assert(es.subrange(0, es.len() as int) =~= es);
        if es.len() == 0 {
            assert(total_tokens(es) == 0);
        }
        0
    }
}

/// Once every entry is marked summarized, nothing is pending and the delta
/// is empty.
pub proof fn lemma_mark_all_clears(es: Seq<EntryView>)
    ensures
        pending_tokens(mark_all(es)) == 0,
        delta_spec(mark_all(es)) == Seq::<char>::empty(),
        total_tokens(mark_all(es)) == total_tokens(es),
    decreases es.len(),
{
    if es.len() > 0 {
        lemma_mark_all_clears(es.drop_last());
        assert(mark_all(es).drop_last() =~= mark_all(es.drop_last()));
        assert(delta_spec(mark_all(es)) =~= delta_spec(mark_all(es.drop_last())));
    }
}

/// A bounded context window.
pub struct Window {
    max_age: Duration,
    max_tokens: usize,
    entries: VecDeque<Entry>,
    tokens: usize,
}

impl View for Window {
    type V = WindowView;

    closed spec fn view(&self) -> WindowView {
        WindowView {
            max_age: self.max_age@,
            max_tokens: self.max_tokens as nat,
            entries: self.entries@.map_values(|e: Entry| e.view()),
        }
    }
}

impl Window {
    /// Internal consistency: the cached total matches the entries, the total
    /// is within budget, and each entry's count is the estimate for its text.
    pub closed spec fn wf(&self) -> bool {
        &&& self.tokens as nat == total_tokens(self@.entries)
        &&& total_tokens(self@.entries) <= self@.max_tokens
        &&& forall|i: int|
            0 <= i < self@.entries.len() ==> (#[trigger] self@.entries[i]).tokens
                == estimate_tokens_spec(self@.entries[i].text.len())
    }

    /// An empty window with the given age and token limits.
    pub fn new(max_age: Duration, max_tokens: usize) -> (w: Window)
        ensures
            w.wf(),
            w@.max_age == max_age@,
            w@.max_tokens == max_tokens,
            w@.entries == Seq::<EntryView>::empty(),
    {
        let w = Window { max_age, max_tokens, entries: VecDeque::new(), tokens: 0 };
        assert(w@.entries =~= Seq::<EntryView>::empty());
        w
    }

    /// Adds a chat line by `who`, then evicts; reads the clock for the
    /// entry's time and again for eviction.
    pub fn push_chat(&mut self, who: &str, text: &str)
        requires
            old(self).wf(),
            old(self)@.max_tokens + estimate_tokens_spec(text@.len()) <= usize::MAX,
        ensures
            final(self).wf(),
            exists|at: int, now: int|
                final(self)@.entries == evict_spec(
                    old(self)@.entries.push(new_entry(Source::Chat, who@, text@, at)),
                    now,
                    old(self)@.max_age,
                    old(self)@.max_tokens,
                ),
            final(self)@.max_age == old(self)@.max_age,
            final(self)@.max_tokens == old(self)@.max_tokens,
    {
        let at = Instant::now();
        let now = Instant::now();
        self.push_at(Source::Chat, who, text, at, now);
        assert(self@.entries == evict_spec(
            old(self)@.entries.push(new_entry(Source::Chat, who@, text@, at@)),
            now@,
            old(self)@.max_age,
            old(self)@.max_tokens,
        ));
    }

    /// Adds a transcript line, then evicts; reads the clock as `push_chat`.
    pub fn push_transcript(&mut self, text: &str)
        requires
            old(self).wf(),
            old(self)@.max_tokens + estimate_tokens_spec(text@.len()) <= usize::MAX,
        ensures
            final(self).wf(),
            exists|at: int, now: int|
                final(self)@.entries == evict_spec(
                    old(self)@.entries.push(
                        new_entry(Source::Transcript, Seq::empty(), text@, at),
                    ),
                    now,
                    old(self)@.max_age,
                    old(self)@.max_tokens,
                ),
            final(self)@.max_age == old(self)@.max_age,
            final(self)@.max_tokens == old(self)@.max_tokens,
    {
        let at = Instant::now();
        let now = Instant::now();
        proof {
            reveal_strlit("");
        }
        self.push_at(Source::Transcript, "", text, at, now);
        assert(""@ =~= Seq::<char>::empty());
        assert(self@.entries == evict_spec(
            old(self)@.entries.push(new_entry(Source::Transcript, Seq::empty(), text@, at@)),
            now@,
            old(self)@.max_age,
            old(self)@.max_tokens,
        ));
    }

    /// Adds an entry stamped `at`, then evicts as of `now`: entries leave
    /// from the front while the front one is older than `max_age` or the
    /// total exceeds `max_tokens`.
    pub fn push_at(&mut self, source: Source, who: &str, text: &str, at: Instant, now: Instant)
        requires
            old(self).wf(),
            old(self)@.max_tokens + estimate_tokens_spec(text@.len()) <= usize::MAX,
        ensures
            final(self).wf(),
            final(self)@.entries == evict_spec(
                old(self)@.entries.push(new_entry(source, who@, text@, at@)),
                now@,
                old(self)@.max_age,
                old(self)@.max_tokens,
            ),
            final(self)@.max_age == old(self)@.max_age,
            final(self)@.max_tokens == old(self)@.max_tokens,
    {
        let tokens = estimate_tokens(text);
        let e = Entry {
            source,
            who: who.to_owned(),
            text: text.to_owned(),
            at,
            tokens,
            summarized: false,
        };
        let ghost old_es = self@.entries;
        self.entries.push_back(e);
        proof {
            assert(self@.entries =~= old_es.push(new_entry(source, who@, text@, at@)));
            assert(self@.entries.drop_last() =~= old_es);
        }
        self.tokens = self.tokens + tokens;
        self.evict(now);
    }

    fn evict(&mut self, now: Instant)
        requires
            old(self).tokens as nat == total_tokens(old(self)@.entries),
            forall|i: int|
                0 <= i < old(self)@.entries.len() ==> (#[trigger] old(self)@.entries[i]).tokens
                    == estimate_tokens_spec(old(self)@.entries[i].text.len()),
        ensures
            final(self).wf(),
            final(self)@.entries == evict_spec(
                old(self)@.entries,
                now@,
                old(self)@.max_age,
                old(self)@.max_tokens,
            ),
            final(self)@.max_age == old(self)@.max_age,
            final(self)@.max_tokens == old(self)@.max_tokens,
    {
        let ghost target = evict_spec(
            self@.entries,
            now@,
            self@.max_age,
            self@.max_tokens,
        );
        let ghost k0 = lemma_evict_suffix(self@.entries, now@, self@.max_age, self@.max_tokens);
        let ghost es0 = self@.entries;
        loop
            invariant
                self.tokens as nat == total_tokens(self@.entries),
                evict_spec(self@.entries, now@, self@.max_age, self@.max_tokens) == target,
                self@.max_age == old(self)@.max_age,
                self@.max_tokens == old(self)@.max_tokens,
                target == evict_spec(es0, now@, self@.max_age, self@.max_tokens),
                total_tokens(target) <= self@.max_tokens,
                forall|i: int|
                    0 <= i < self@.entries.len() ==> (#[trigger] self@.entries[i]).tokens
                        == estimate_tokens_spec(self@.entries[i].text.len()),
            ensures
                self.tokens as nat == total_tokens(self@.entries),
                self@.entries == target,
                self@.max_age == old(self)@.max_age,
                self@.max_tokens == old(self)@.max_tokens,
                total_tokens(target) <= self@.max_tokens,
                forall|i: int|
                    0 <= i < self@.entries.len() ==> (#[trigger] self@.entries[i]).tokens
                        == estimate_tokens_spec(self@.entries[i].text.len()),
            decreases self.entries.len(),
        {
            if self.entries.len() == 0 {
                proof {
                    assert(self@.entries =~= Seq::<EntryView>::empty());
                }
                break;
            }
            let age = now.duration_since(self.entries[0].at);
            let too_old = !age.le(&self.max_age);
            let over_budget = self.tokens > self.max_tokens;
            proof {
                assert(self@.entries[0] == self.entries@[0].view());
            }
            if too_old || over_budget {
                let ghost es = self@.entries;
                proof {
                    lemma_total_first(es);
                }
                let front = self.entries.pop_front();
                match front {
                    Some(f) => {
                        proof {
                            assert(self@.entries =~= es.drop_first());
                            assert forall|i: int| 0 <= i < self@.entries.len() implies (#[trigger] self@.entries[i]).tokens
                                == estimate_tokens_spec(self@.entries[i].text.len()) by {
                                assert(self@.entries[i] == es[i + 1]);
                            }
                        }
                        self.tokens = self.tokens - f.tokens;
                    },
                    None => {},
                }
            } else {
                break;
            }
        }
    }

    /// Tokens not yet included in a summary — drives the volume trigger.
    pub fn unsummarized_tokens(&self) -> (n: usize)
        requires
            self.wf(),
        ensures
            n as nat == pending_tokens(self@.entries),
    {
        let ghost es = self@.entries;
        let mut acc: usize = 0;
        let mut i: usize = 0;
        while i < self.entries.len()
            invariant
                i <= es.len(),
                es == self@.entries,
                self.wf(),
                acc as nat == pending_tokens(es.take(i as int)),
            decreases self.entries.len() - i,
        {
            proof {
                assert(es.take(i + 1).drop_last() =~= es.take(i as int));
                assert(es[i as int] == self.entries@[i as int].view());
                lemma_pending_le_total(es.take(i + 1));
                lemma_prefix_total_le(es, i + 1);
            }
            let e = &self.entries[i];
            if !e.summarized {
                acc = acc + e.tokens;
            }
            i = i + 1;
        }
        assert(es.take(i as int) =~= es);
        acc
    }

    /// Whether some entry is not yet summarized.
    pub fn has_unsummarized(&self) -> (b: bool)
        ensures
            b == exists|i: int| 0 <= i < self@.entries.len() && !(#[trigger] self@.entries[i]).summarized,
    {
        let mut i: usize = 0;
        while i < self.entries.len()
            invariant
                i <= self@.entries.len(),
                forall|j: int| 0 <= j < i ==> (#[trigger] self@.entries[j]).summarized,
            decreases self.entries.len() - i,
        {
            proof {
                assert(self@.entries[i as int] == self.entries@[i as int].view());
            }
            if !self.entries[i].summarized {
                return true;
            }
            i = i + 1;
        }
        false
    }

    /// Render only the not-yet-summarized entries (the incremental delta
    /// sent to the LLM). Does not mutate state — call `mark_summarized`
    /// after a success.
    pub fn render_delta(&self) -> (s: String)
        ensures
            s@ == delta_spec(self@.entries),
    {
        let ghost es = self@.entries;
        let mut out = String::new();
        let mut i: usize = 0;
        while i < self.entries.len()
            invariant
                i <= es.len(),
                es == self@.entries,
                out@ == delta_spec(es.take(i as int)),
            decreases self.entries.len() - i,
        {
            proof {
                assert(es.take(i + 1).drop_last() =~= es.take(i as int));
                assert(es[i as int] == self.entries@[i as int].view());
            }
            let e = &self.entries[i];
            if !e.summarized {
                match e.source {
                    Source::Chat => {
                        out.append("[chat] ");
                        out.append(e.who.as_str());
                        out.append(": ");
                    },
                    Source::Transcript => {
                        out.append("[fala] ");
                    },
                }
                out.append(e.text.as_str());
                out.append("\n");
            }
            i = i + 1;
        }
        assert(es.take(i as int) =~= es);
        out
    }

    /// Marks every entry as included in a summary.
    pub fn mark_summarized(&mut self)
        requires
            old(self).wf(),
        ensures
            final(self).wf(),
            final(self)@.entries == mark_all(old(self)@.entries),
            final(self)@.max_age == old(self)@.max_age,
            final(self)@.max_tokens == old(self)@.max_tokens,
    {
        let ghost es = self@.entries;
        let mut rest: VecDeque<Entry> = VecDeque::new();
        std::mem::swap(&mut rest, &mut self.entries);
        let mut done: VecDeque<Entry> = VecDeque::new();
        let n = rest.len();
        proof {
            assert forall|j: int| 0 <= j < rest@.len() implies (#[trigger] rest@[j]).view() == es[j] by {
            }
        }
        let mut i: usize = 0;
        while i < n
            invariant
                i <= n,
                n == es.len(),
                rest@.len() == n - i,
                forall|j: int| 0 <= j < rest@.len() ==> (#[trigger] rest@[j]).view() == es[i + j],
                done@.len() == i,
                forall|j: int| 0 <= j < i ==> (#[trigger] done@[j]).view() == summarized_entry(es[j]),
            decreases n - i,
        {
            let ghost r0 = rest@;
            let front = rest.pop_front();
            match front {
                Some(f) => {
                    let mut g = f;
                    g.summarized = true;
                    proof {
                        assert(r0[0].view() == es[i as int]);
                        assert forall|j: int| 0 <= j < rest@.len() implies (#[trigger] rest@[j]).view() == es[i + 1 + j] by {
                            assert(rest@[j] == r0[j + 1]);
                        }
                    }
                    done.push_back(g);
                },
                None => {},
            }
            i = i + 1;
        }
        self.entries = done;
        proof {
            assert(self@.entries =~= mark_all(es));
            lemma_mark_all_clears(es);
            assert forall|j: int| 0 <= j < self@.entries.len() implies (#[trigger] self@.entries[j]).tokens
                == estimate_tokens_spec(self@.entries[j].text.len()) by {
                assert(self@.entries[j] == summarized_entry(es[j]));
            }
        }
    }
}

/// The total of a prefix is at most the total of the whole.
pub proof fn lemma_prefix_total_le(es: Seq<EntryView>, i: int)
    requires
        0 <= i <= es.len(),
    ensures
        total_tokens(es.take(i)) <= total_tokens(es),
    decreases es.len() - i,
{
    if i < es.len() {
        lemma_prefix_total_le(es.drop_last(), i);
        assert(es.drop_last().take(i) =~= es.take(i));
    } else {
        assert(es.take(i) =~= es);
    }
}

} // verus!
