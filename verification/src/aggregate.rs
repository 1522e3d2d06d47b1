//! Aggregation: the rolling window, the summary trigger, and the decisions of
//! the aggregator worker.

pub mod trigger;
pub mod window;

use vstd::prelude::*;
use crate::clock::{Duration, Instant};
use crate::text::{chars_eq, chars_of, has_prefix, is_blank, lowercase, starts_with, to_lowercase, trim, trim_spec};
use trigger::{fires, Trigger, TriggerView};
use window::{
    delta_spec, estimate_tokens_spec, evict_spec, mark_all, new_entry, pending_tokens, Source,
    Window, WindowView,
};

verus! {

/// Settings of the aggregator worker.
pub struct AggregateCfg {
    pub channel: String,
    pub summary_interval: Duration,
    pub window_max_secs: Duration,
    pub window_max_tokens: usize,
}

/// Whether a chat line asks for a summary: after trimming and lowercasing it
/// is `!summary` or `!resumo`, alone or followed by a space and more text.
pub open spec fn summary_command_spec(text: Seq<char>) -> bool {
    let t = lowercase(trim_spec(text));
    ||| t == "!summary"@
    ||| t == "!resumo"@
    ||| has_prefix(t, "!summary "@)
    ||| has_prefix(t, "!resumo "@)
}

/// Whether `text` is a `!summary` / `!resumo` chat command.
pub fn is_summary_command(text: &str) -> (b: bool)
    ensures
        b == summary_command_spec(text@),
{
    let chars = chars_of(text);
    let trimmed = trim(chars.as_slice());
    let t = to_lowercase(trimmed.as_slice());
    let summary = chars_of("!summary");
    let resumo = chars_of("!resumo");
    let summary_arg = chars_of("!summary ");
    let resumo_arg = chars_of("!resumo ");
    chars_eq(t.as_slice(), summary.as_slice()) || chars_eq(t.as_slice(), resumo.as_slice())
        || starts_with(t.as_slice(), summary_arg.as_slice()) || starts_with(
        t.as_slice(),
        resumo_arg.as_slice(),
    )
}

/// A chat line is a summary command exactly when, trimmed and lowercased,
/// it is `!summary` or `!resumo`, or it is one of them followed by a space
/// and any further text.
pub proof fn lemma_summary_command_forms(text: Seq<char>)
    ensures
        summary_command_spec(text) <==> ({
            let t = lowercase(trim_spec(text));
            ||| t == "!summary"@
            ||| t == "!resumo"@
            ||| exists|rest: Seq<char>| t == "!summary "@ + rest
            ||| exists|rest: Seq<char>| t == "!resumo "@ + rest
        }),
{
    let t = lowercase(trim_spec(text));
    let sa = "!summary "@;
    let ra = "!resumo "@;
    if has_prefix(t, sa) {
        assert(t == sa + t.skip(sa.len() as int));
    }
    if has_prefix(t, ra) {
        assert(t == ra + t.skip(ra.len() as int));
    }
    if exists|rest: Seq<char>| t == sa + rest {
        let rest = choose|rest: Seq<char>| t == sa + rest;
        assert(t.subrange(0, sa.len() as int) =~= sa);
    }
    if exists|rest: Seq<char>| t == ra + rest {
        let rest = choose|rest: Seq<char>| t == ra + rest;
        assert(t.subrange(0, ra.len() as int) =~= ra);
    }
}

/// Whatever follows `!summary ` or `!resumo ` (after trimming and
/// lowercasing), the line requests a summary.
pub proof fn lemma_command_with_argument(text: Seq<char>, rest: Seq<char>)
    requires
        lowercase(trim_spec(text)) == "!summary "@ + rest || lowercase(trim_spec(text))
            == "!resumo "@ + rest,
    ensures
        summary_command_spec(text),
{
    lemma_summary_command_forms(text);
}

/// Volume threshold for a window budget of `max_tokens`: 60% of it,
/// rounded down.
pub open spec fn volume_threshold(max_tokens: nat) -> nat {
    max_tokens * 3 / 5
}

/// Whether the window holds an entry not yet summarized.
pub open spec fn has_pending(w: WindowView) -> bool {
    exists|i: int| 0 <= i < w.entries.len() && !(#[trigger] w.entries[i]).summarized
}

/// The decisions of the aggregator worker: what to keep, when to summarize,
/// and what to send for a summary. The worker feeds it events and performs
/// the summaries it asks for.
pub struct Aggregator {
    window: Window,
    trigger: Trigger,
    prior_summary: String,
}

impl Aggregator {
    /// The window is consistent.
    pub closed spec fn wf(&self) -> bool {
        self.window.wf()
    }

    /// The window's abstract state.
    pub closed spec fn window_view(&self) -> WindowView {
        self.window@
    }

    /// The trigger's abstract state.
    pub closed spec fn trigger_view(&self) -> TriggerView {
        self.trigger@
    }

    /// The running summary of the previous summary, empty at first.
    pub closed spec fn prior(&self) -> Seq<char> {
        self.prior_summary@
    }

    /// An aggregator with an empty window, no prior summary, and a trigger
    /// whose interval starts now; the volume threshold is 60% of the window
    /// budget.
    pub fn new(cfg: &AggregateCfg) -> (a: Aggregator)
        ensures
            a.wf(),
            a.window_view() == (WindowView {
                max_age: cfg.window_max_secs@,
                max_tokens: cfg.window_max_tokens as nat,
                entries: Seq::empty(),
            }),
            a.trigger_view().interval == cfg.summary_interval@,
            a.trigger_view().token_threshold == volume_threshold(cfg.window_max_tokens as nat),
            !a.trigger_view().manual,
            a.prior() == Seq::<char>::empty(),
    {
        let n = cfg.window_max_tokens;
        let threshold = (n / 5) * 3 + (n % 5) * 3 / 5;
        assert(threshold == n * 3 / 5) by (nonlinear_arith)
            requires
                threshold == (n / 5) * 3 + (n % 5) * 3 / 5,
        ;
        Aggregator {
            window: Window::new(cfg.window_max_secs, cfg.window_max_tokens),
            trigger: Trigger::new(cfg.summary_interval, threshold),
            prior_summary: String::new(),
        }
    }

    /// A chat line from `user`: a summary command requests a manual summary,
    /// and the line joins the window.
    pub fn on_chat(&mut self, user: &str, text: &str)
        requires
            old(self).wf(),
            old(self).window_view().max_tokens + estimate_tokens_spec(text@.len()) <= usize::MAX,
        ensures
            final(self).wf(),
            final(self).trigger_view() == if summary_command_spec(text@) {
                TriggerView { manual: true, ..old(self).trigger_view() }
            } else {
                old(self).trigger_view()
            },
            exists|at: int, now: int|
                final(self).window_view().entries == evict_spec(
                    old(self).window_view().entries.push(new_entry(Source::Chat, user@, text@, at)),
                    now,
                    old(self).window_view().max_age,
                    old(self).window_view().max_tokens,
                ),
            final(self).window_view().max_age == old(self).window_view().max_age,
            final(self).window_view().max_tokens == old(self).window_view().max_tokens,
            final(self).prior() == old(self).prior(),
    {
        if is_summary_command(text) {
            self.trigger.request_manual();
        }
        self.window.push_chat(user, text);
    }

    /// A transcript segment joins the window.
    pub fn on_transcript(&mut self, text: &str)
        requires
            old(self).wf(),
            old(self).window_view().max_tokens + estimate_tokens_spec(text@.len()) <= usize::MAX,
        ensures
            final(self).wf(),
            final(self).trigger_view() == old(self).trigger_view(),
            exists|at: int, now: int|
                final(self).window_view().entries == evict_spec(
                    old(self).window_view().entries.push(
                        new_entry(Source::Transcript, Seq::empty(), text@, at),
                    ),
                    now,
                    old(self).window_view().max_age,
                    old(self).window_view().max_tokens,
                ),
            final(self).window_view().max_age == old(self).window_view().max_age,
            final(self).window_view().max_tokens == old(self).window_view().max_tokens,
            final(self).prior() == old(self).prior(),
    {
        self.window.push_transcript(text);
    }

    /// Whether a stream status change calls for a summary: the stream went
    /// offline and the window holds unsummarized content.
    pub fn summary_on_status(&self, online: bool) -> (b: bool)
        ensures
            b == (!online && has_pending(self.window_view())),
    {
        !online && self.window.has_unsummarized()
    }

    /// Whether the periodic check calls for a summary at `now` (see
    /// `trigger::fires`).
    pub fn summary_on_tick(&self, now: Instant) -> (b: bool)
        requires
            self.wf(),
        ensures
            b == fires(self.trigger_view(), pending_tokens(self.window_view().entries), now@),
    {
        let tokens = self.window.unsummarized_tokens();
        self.trigger.should_fire(tokens, now)
    }

    /// Whether shutdown calls for a final summary: unsummarized content
    /// remains.
    pub fn summary_on_shutdown(&self) -> (b: bool)
        ensures
            b == has_pending(self.window_view()),
    {
        self.window.has_unsummarized()
    }

    /// The text to summarize, if a summary should run: nothing while
    /// spending is not allowed, nothing when the delta is blank, otherwise
    /// the delta of unsummarized entries.
    pub fn begin_summary(&self, spending_allowed: bool) -> (r: Option<String>)
        ensures
            r is Some <==> (spending_allowed && trim_spec(delta_spec(self.window_view().entries)).len()
                > 0),
            r matches Some(d) ==> d@ == delta_spec(self.window_view().entries),
    {
        if !spending_allowed {
            return None;
        }
        let delta = self.window.render_delta();
        let chars = chars_of(delta.as_str());
        if is_blank(chars.as_slice()) {
            None
        } else {
            Some(delta)
        }
    }

    /// The running summary of the previous summary.
    pub fn prior_summary(&self) -> (s: &str)
        ensures
            s@ == self.prior(),
    {
        self.prior_summary.as_str()
    }

    /// A summary succeeded: its running summary becomes the prior, and every
    /// window entry counts as summarized.
    pub fn finish_summary(&mut self, running_summary: String)
        requires
            old(self).wf(),
        ensures
            final(self).wf(),
            final(self).prior() == running_summary@,
            final(self).window_view().entries == mark_all(old(self).window_view().entries),
            final(self).window_view().max_age == old(self).window_view().max_age,
            final(self).window_view().max_tokens == old(self).window_view().max_tokens,
            final(self).trigger_view() == old(self).trigger_view(),
    {
        self.prior_summary = running_summary;
        self.window.mark_summarized();
    }

    /// A summary attempt happened at `now`: the trigger restarts its
    /// interval and drops any manual request.
    pub fn record_fire(&mut self, now: Instant)
        ensures
            final(self).trigger_view() == (TriggerView {
                last_fire: now@,
                manual: false,
                ..old(self).trigger_view()
            }),
            final(self).window_view() == old(self).window_view(),
            final(self).prior() == old(self).prior(),
            final(self).wf() == old(self).wf(),
    {
        self.trigger.record_fire(now);
    }
}

} // verus!
