//! Interactive chat persona: the user registry, the recent chat context,
//! and the decisions of the interaction worker (easter egg, replies to
//! mentions, rate limiting).

pub mod registry;
pub mod decision;
pub mod persona;

use std::collections::VecDeque;
use vstd::prelude::*;
use crate::clock::{Duration, Instant};
use crate::discord::ratelimit::{acquire_step, refilled, LimiterView, RateLimiter};
use crate::text::{join_spec, string_views};
use crate::types::{ChatEvent, OutboundChat};
use decision::{eq_ignore_ascii_case_spec, is_easter_egg_target, is_mention, mention_spec};
use persona::{build_reply_prompt, reply_system_spec, reply_user_spec, sanitize, sanitize_spec};

verus! {

/// How many recent chat lines are kept as reply context.
pub const RECENT_CONTEXT: usize = 15;

/// The context line for a chat message: `user: text`.
pub open spec fn recent_line(ev: ChatEvent) -> Seq<char> {
    ev.user@ + ": "@ + ev.text@
}

/// The recent lines after `ev`: the oldest line leaves when the context is
/// full, and `ev`'s line joins at the end.
pub open spec fn push_recent_spec(recent: Seq<Seq<char>>, ev: ChatEvent) -> Seq<Seq<char>> {
    if recent.len() >= RECENT_CONTEXT {
        recent.drop_first().push(recent_line(ev))
    } else {
        recent.push(recent_line(ev))
    }
}

/// The views of a deque of strings.
pub open spec fn deque_views(d: Seq<String>) -> Seq<Seq<char>> {
    string_views(d)
}

/// Remembers `ev` as recent context, keeping at most `RECENT_CONTEXT` lines.
pub fn push_recent(recent: &mut VecDeque<String>, ev: &ChatEvent)
    ensures
        deque_views(final(recent)@) == push_recent_spec(deque_views(old(recent)@), *ev),
{
    let ghost before = recent@;
    if recent.len() >= RECENT_CONTEXT {
        recent.pop_front();
    }
    let ghost mid = recent@;
    let mut line = String::new();
    line.append(ev.user.as_str());
    line.append(": ");
    line.append(ev.text.as_str());
    recent.push_back(line);
    proof {
        if before.len() >= RECENT_CONTEXT {
            assert(deque_views(mid) =~= deque_views(before).drop_first());
        } else {
            assert(mid == before);
        }
        assert(deque_views(recent@) =~= deque_views(mid).push(recent_line(*ev)));
    }
}

/// The recent lines as one block, one line each.
pub fn recent_context(recent: &VecDeque<String>) -> (s: String)
    ensures
        s@ == join_spec(deque_views(recent@), "\n"@),
{
    let mut lines: Vec<String> = Vec::new();
    let mut i: usize = 0;
    while i < recent.len()
        invariant
            i <= recent@.len(),
            lines@.len() == i,
            forall|j: int| 0 <= j < i ==> (#[trigger] lines@[j])@ == recent@[j]@,
        decreases recent.len() - i,
    {
        lines.push(recent[i].clone());
        i = i + 1;
    }
    assert(string_views(lines@) =~= deque_views(recent@));
    crate::text::join(&lines, "\n")
}

/// The context never holds more than `RECENT_CONTEXT` lines, and the newest
/// line is always the last message's.
pub proof fn lemma_recent_bounded(recent: Seq<Seq<char>>, ev: ChatEvent)
    requires
        recent.len() <= RECENT_CONTEXT,
    ensures
        push_recent_spec(recent, ev).len() <= RECENT_CONTEXT,
        push_recent_spec(recent, ev).last() == recent_line(ev),
{
}

/// Settings of the interaction worker. The easter egg's chance is applied
/// by the caller, which rolls the dice.
pub struct InteractionCfg {
    pub bot_login: String,
    pub persona: String,
    pub chat_rate_per_30s: u32,
    pub easter_egg_user: String,
    pub easter_egg_text: String,
    pub reply_max_chars: usize,
}

/// What the worker should do about a chat message.
#[derive(Debug)]
pub enum ChatAction {
    /// Post this message now.
    Send(OutboundChat),
    /// Ask the LLM for a reply with these prompts, then hand its answer to
    /// `reply_message` for `reply_to`.
    Generate { system: String, user: String, reply_to: String },
    /// Nothing to do.
    Ignore,
}

/// The abstract value of an action.
pub enum ActionView {
    Send { text: Seq<char>, reply_to: Option<Seq<char>> },
    Generate { system: Seq<char>, user: Seq<char>, reply_to: Seq<char> },
    Ignore,
}

/// The abstract value of an optional string.
pub open spec fn opt_str(o: Option<String>) -> Option<Seq<char>> {
    match o {
        Some(s) => Some(s@),
        None => None,
    }
}

impl View for ChatAction {
    type V = ActionView;

    open spec fn view(&self) -> ActionView {
        match self {
            ChatAction::Send(m) => ActionView::Send { text: m.text@, reply_to: opt_str(m.reply_to) },
            ChatAction::Generate { system, user, reply_to } => ActionView::Generate {
                system: system@,
                user: user@,
                reply_to: reply_to@,
            },
            ChatAction::Ignore => ActionView::Ignore,
        }
    }
}

/// One chat message `ev` at `now`, with the rate limiter at `l` and the
/// recent context already including `ev` (`recent`): the easter egg, when
/// its roll hit and the sender is the target, is posted as a threaded reply
/// if the limiter grants a token; otherwise a message that mentions the bot
/// asks for a generated reply, if spending is allowed and the limiter
/// grants a token. Returns the limiter afterwards and the action.
pub open spec fn message_step(
    cfg: InteractionCfg,
    l: LimiterView,
    recent: Seq<Seq<char>>,
    ev: ChatEvent,
    egg_roll_hit: bool,
    spending_allowed: bool,
    mood_label: Seq<char>,
    intensity_text: Seq<char>,
    now: int,
) -> (LimiterView, ActionView) {
    let egg = egg_roll_hit && cfg.easter_egg_user@.len() > 0 && eq_ignore_ascii_case_spec(
        ev.login@,
        cfg.easter_egg_user@,
    );
    let (l1, sent) = if egg {
        acquire_step(l, now)
    } else {
        (l, false)
    };
    if sent {
        (l1, ActionView::Send { text: cfg.easter_egg_text@, reply_to: Some(ev.message_id@) })
    } else if mention_spec(ev.text@, cfg.bot_login@) && spending_allowed {
        let (l2, ok) = acquire_step(l1, now);
        if ok {
            (
                l2,
                ActionView::Generate {
                    system: reply_system_spec(
                        cfg.persona@,
                        cfg.bot_login@,
                        mood_label,
                        intensity_text,
                    ),
                    user: reply_user_spec(ev, join_spec(recent, "\n"@)),
                    reply_to: ev.message_id@,
                },
            )
        } else {
            (l2, ActionView::Ignore)
        }
    } else {
        (l1, ActionView::Ignore)
    }
}

/// The state of the interaction worker: its chat rate limiter and the
/// recent chat context.
pub struct Interaction {
    limiter: RateLimiter,
    recent: VecDeque<String>,
}

impl Interaction {
    /// The limiter's state.
    pub closed spec fn limiter_view(&self) -> LimiterView {
        self.limiter@
    }

    /// The recent context lines.
    pub closed spec fn recent_view(&self) -> Seq<Seq<char>> {
        deque_views(self.recent@)
    }

    /// The limiter is consistent.
    pub closed spec fn wf(&self) -> bool {
        self.limiter.wf()
    }

    /// No context yet, and a full limiter of `chat_rate_per_30s` messages
    /// (at least one) per 30 seconds, starting at `now`.
    pub fn new(cfg: &InteractionCfg, now: Instant) -> (s: Interaction)
        ensures
            s.wf(),
            s.recent_view() == Seq::<Seq<char>>::empty(),
            s.limiter_view().rate == if cfg.chat_rate_per_30s >= 1 {
                cfg.chat_rate_per_30s as nat
            } else {
                1
            },
            s.limiter_view().unit == 30_000_000_000,
            s.limiter_view().units == s.limiter_view().rate * s.limiter_view().unit,
            s.limiter_view().last == now@,
    {
        let s = Interaction {
            limiter: RateLimiter::per_window_at(cfg.chat_rate_per_30s, Duration::from_secs(30), now),
            recent: VecDeque::new(),
        };
        assert(s.recent_view() =~= Seq::<Seq<char>>::empty());
        s
    }

    /// Handles chat message `ev` at `now` (see `message_step`); the message
    /// joins the recent context first.
    pub fn on_message(
        &mut self,
        cfg: &InteractionCfg,
        ev: &ChatEvent,
        egg_roll_hit: bool,
        spending_allowed: bool,
        mood_label: &str,
        intensity_text: &str,
        now: Instant,
    ) -> (a: ChatAction)
        requires
            old(self).wf(),
        ensures
            final(self).wf(),
            final(self).recent_view() == push_recent_spec(old(self).recent_view(), *ev),
            (final(self).limiter_view(), a@) == message_step(
                *cfg,
                old(self).limiter_view(),
                final(self).recent_view(),
                *ev,
                egg_roll_hit,
                spending_allowed,
                mood_label@,
                intensity_text@,
                now@,
            ),
    {
        push_recent(&mut self.recent, ev);
        if egg_roll_hit && is_easter_egg_target(ev.login.as_str(), cfg.easter_egg_user.as_str()) {
            if self.limiter.try_acquire_at(now) {
                return ChatAction::Send(
                    OutboundChat {
                        text: cfg.easter_egg_text.clone(),
                        reply_to: Some(ev.message_id.clone()),
                    },
                );
            }
        }
        if is_mention(ev.text.as_str(), cfg.bot_login.as_str()) && spending_allowed {
            if self.limiter.try_acquire_at(now) {
                let ctx = recent_context(&self.recent);
                let (system, user) = build_reply_prompt(
                    cfg.persona.as_str(),
                    cfg.bot_login.as_str(),
                    mood_label,
                    intensity_text,
                    ev,
                    ctx.as_str(),
                );
                return ChatAction::Generate { system, user, reply_to: ev.message_id.clone() };
            }
        }
        ChatAction::Ignore
    }
}

/// The chat message for a generated reply `text` to message `reply_to`:
/// the sanitized reply, unless it comes out empty.
pub fn reply_message(text: &str, max_chars: usize, reply_to: String) -> (m: Option<OutboundChat>)
    ensures
        m is None <==> sanitize_spec(text@, max_chars as nat).len() == 0,
        m matches Some(o) ==> o.text@ == sanitize_spec(text@, max_chars as nat) && o.reply_to
            == Some(reply_to),
{
    let clean = sanitize(text, max_chars);
    if clean.as_str().is_empty() {
        None
    } else {
        Some(OutboundChat { text: clean, reply_to: Some(reply_to) })
    }
}

/// Every message the worker posts, or asks the LLM for, takes exactly one
/// token from the chat limiter (as refilled at that instant), so the
/// limiter bounds what the bot says in chat.
pub proof fn lemma_actions_take_one_token(
    cfg: InteractionCfg,
    l: LimiterView,
    recent: Seq<Seq<char>>,
    ev: ChatEvent,
    egg_roll_hit: bool,
    spending_allowed: bool,
    mood_label: Seq<char>,
    intensity_text: Seq<char>,
    now: int,
)
    ensures
        ({
            let (l2, a) = message_step(
                cfg,
                l,
                recent,
                ev,
                egg_roll_hit,
                spending_allowed,
                mood_label,
                intensity_text,
                now,
            );
            !(a is Ignore) ==> l2.units + l.unit == refilled(l, now).units
        }),
{
}

} // verus!
