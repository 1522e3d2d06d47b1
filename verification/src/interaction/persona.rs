//! Persona text, sender descriptors, reply prompts, and sanitization of
//! generated replies.

use vstd::prelude::*;
use crate::text::{
    chars_of, decimal, decimal_chars, lines, lines_spec, replace, replace_spec, string_of, trim,
    trim_bounds, trim_spec,
};
use crate::types::ChatEvent;

verus! {

/// The built-in persona used when no persona file gives one.
pub const DEFAULT_PERSONA: &'static str = "Você é um co-host bot simpático e bem-humorado do canal. Fala português do Brasil de forma natural e descontraída, gosta do chat e da streamer, e nunca é tóxico. É assumidamente um bot da casa (não finge ser humano).";

/// The persona for the contents of a persona file (`None` when it could not
/// be read): the trimmed contents, or the default when they are blank.
pub open spec fn persona_spec(contents: Option<Seq<char>>) -> Seq<char> {
    match contents {
        Some(c) => if trim_spec(c).len() > 0 {
            trim_spec(c)
        } else {
            DEFAULT_PERSONA@
        },
        None => DEFAULT_PERSONA@,
    }
}

/// The persona prompt from a persona file's contents, falling back to the
/// built-in default.
pub fn persona_from(contents: Option<&str>) -> (p: String)
    ensures
        p@ == persona_spec(
            match contents {
                Some(c) => Some(c@),
                None => None,
            },
        ),
{
    match contents {
        Some(c) => {
            let t = trim(chars_of(c).as_slice());
            if t.len() > 0 {
                string_of(t.as_slice())
            } else {
                DEFAULT_PERSONA.to_owned()
            }
        },
        None => DEFAULT_PERSONA.to_owned(),
    }
}

/// How the sender is described: streamer, moderator, VIP, founder,
/// subscriber, or viewer, in that order of precedence.
pub open spec fn role_spec(ev: ChatEvent) -> Seq<char> {
    if ev.is_broadcaster {
        "a própria streamer"@
    } else if ev.is_mod {
        "um moderador"@
    } else if ev.is_vip {
        "um VIP"@
    } else if ev.is_founder {
        "um founder (apoiador antigo)"@
    } else if ev.is_sub {
        "um inscrito"@
    } else {
        "um viewer"@
    }
}

/// The subscription tenure, when there is one.
pub open spec fn tenure_spec(months: u32) -> Seq<char> {
    if months > 0 {
        ", "@ + decimal(months as nat) + " meses de sub"@
    } else {
        Seq::empty()
    }
}

/// `O usuário <name> (<role><tenure>)`.
pub open spec fn descriptor_spec(ev: ChatEvent) -> Seq<char> {
    "O usuário "@ + ev.user@ + " ("@ + role_spec(ev) + tenure_spec(ev.sub_months) + ")"@
}

/// Human-readable credibility/tenure descriptor from cheap IRC-badge signals.
pub fn user_descriptor(ev: &ChatEvent) -> (s: String)
    ensures
        s@ == descriptor_spec(*ev),
{
    let role: &str = if ev.is_broadcaster {
        "a própria streamer"
    } else if ev.is_mod {
        "um moderador"
    } else if ev.is_vip {
        "um VIP"
    } else if ev.is_founder {
        "um founder (apoiador antigo)"
    } else if ev.is_sub {
        "um inscrito"
    } else {
        "um viewer"
    };
    let mut out = String::new();
    out.append("O usuário ");
    out.append(ev.user.as_str());
    out.append(" (");
    out.append(role);
    if ev.sub_months > 0 {
        let n = string_of(decimal_chars(ev.sub_months as u64).as_slice());
        out.append(", ");
        out.append(n.as_str());
        out.append(" meses de sub");
    }
    out.append(")");
    assert(out@ =~= descriptor_spec(*ev));
    out
}

/// The reply instructions between the bot's name and the streamer's mood.
pub const REPLY_RULES: &'static str = ", um bot ASSUMIDO (não esconda que é bot) no chat da Twitch, falando português do Brasil. Responda em UMA linha curta (máx ~200 caracteres), no personagem, soando natural e não robótico. Não use comandos (barra ou !), não marque todos, não invente fatos nem links. Estado atual da streamer: ";

/// The end of the reply system prompt.
pub const REPLY_TONE: &'static str = ") — ajuste o tom a isso.";

/// The end of the reply user prompt.
pub const REPLY_ASK: &'static str = "\"\n\nResponda a essa mensagem de forma curta e natural.";

/// The system prompt of a chat reply: the persona, who the bot is and how
/// it answers, and the streamer's mood with its intensity (given already
/// rendered with one decimal).
pub open spec fn reply_system_spec(
    persona: Seq<char>,
    bot_name: Seq<char>,
    mood_label: Seq<char>,
    intensity_text: Seq<char>,
) -> Seq<char> {
    persona + "\n\nVocê é "@ + bot_name + REPLY_RULES@ + mood_label + " (intensidade "@
        + intensity_text + REPLY_TONE@
}

/// The user prompt of a chat reply: the recent chat, then who wrote what.
pub open spec fn reply_user_spec(ev: ChatEvent, recent_context: Seq<char>) -> Seq<char> {
    "Contexto recente do chat:\n"@ + recent_context + "\n\n"@ + descriptor_spec(ev)
        + " escreveu: \""@ + ev.text@ + REPLY_ASK@
}

/// Builds the `(system, user)` prompts for a chat reply.
pub fn build_reply_prompt(
    persona: &str,
    bot_name: &str,
    mood_label: &str,
    intensity_text: &str,
    ev: &ChatEvent,
    recent_context: &str,
) -> (r: (String, String))
    ensures
        r.0@ == reply_system_spec(persona@, bot_name@, mood_label@, intensity_text@),
        r.1@ == reply_user_spec(*ev, recent_context@),
{
    let mut system = String::new();
    system.append(persona);
    system.append("\n\nVocê é ");
    system.append(bot_name);
    system.append(REPLY_RULES);
    system.append(mood_label);
    system.append(" (intensidade ");
    system.append(intensity_text);
    system.append(REPLY_TONE);
    let descriptor = user_descriptor(ev);
    let mut user = String::new();
    user.append("Contexto recente do chat:\n");
    user.append(recent_context);
    user.append("\n\n");
    user.append(descriptor.as_str());
    user.append(" escreveu: \"");
    user.append(ev.text.as_str());
    user.append(REPLY_ASK);
    (system, user)
}

/// The first line that is not blank, trimmed; empty if there is none.
pub open spec fn first_nonblank(ls: Seq<Seq<char>>) -> Seq<char>
    decreases ls.len(),
{
    if ls.len() == 0 {
        Seq::empty()
    } else if trim_spec(ls[0]).len() > 0 {
        trim_spec(ls[0])
    } else {
        first_nonblank(ls.drop_first())
    }
}

/// A character that may not start a reply: `/`, `!`, `.` or space.
pub open spec fn is_command_char(c: char) -> bool {
    c == '/' || c == '!' || c == '.' || c == ' '
}

/// `s` without its leading command characters.
pub open spec fn strip_command_chars(s: Seq<char>) -> Seq<char>
    decreases s.len(),
{
    if s.len() > 0 && is_command_char(s[0]) {
        strip_command_chars(s.drop_first())
    } else {
        s
    }
}

/// At most the first `n` characters of `s`.
pub open spec fn take_at_most(s: Seq<char>, n: nat) -> Seq<char> {
    if s.len() <= n {
        s
    } else {
        s.take(n as int)
    }
}

/// What `sanitize` makes of `reply`: its first non-blank line, trimmed, with
/// leading command characters removed, `@everyone` and `@here` defused,
/// cut to `max_chars` characters and trimmed again.
pub open spec fn sanitize_spec(reply: Seq<char>, max_chars: nat) -> Seq<char> {
    let line = strip_command_chars(first_nonblank(lines_spec(reply)));
    let defused = replace_spec(replace_spec(line, "@everyone"@, "everyone"@), "@here"@, "here"@);
    trim_spec(take_at_most(defused, max_chars))
}

proof fn lemma_strip_at(s: Seq<char>, k: int)
    requires
        0 <= k <= s.len(),
        forall|i: int| 0 <= i < k ==> is_command_char(#[trigger] s[i]),
        k == s.len() || !is_command_char(s[k]),
    ensures
        strip_command_chars(s) == s.subrange(k, s.len() as int),
    decreases k,
{
    if k == 0 {
        assert(s.subrange(0, s.len() as int) =~= s);
    } else {
        let t = s.drop_first();
        assert forall|i: int| 0 <= i < k - 1 implies is_command_char(#[trigger] t[i]) by {
            assert(t[i] == s[i + 1]);
        }
        lemma_strip_at(t, k - 1);
        assert(t.subrange(k - 1, t.len() as int) =~= s.subrange(k, s.len() as int));
    }
}

/// Make an LLM reply safe to post: first non-empty line, no leading command
/// chars, no mass-mentions, length-capped.
pub fn sanitize(reply: &str, max_chars: usize) -> (s: String)
    ensures
        s@ == sanitize_spec(reply@, max_chars as nat),
{
    proof {
        reveal_strlit("@everyone");
        reveal_strlit("@here");
    }
    let ls = lines(chars_of(reply).as_slice());
    let ghost all = crate::text::views(ls@);
    let mut line: Vec<char> = Vec::new();
    let mut k: usize = 0;
    assert(all.skip(0) =~= all);
    while k < ls.len()
        invariant_except_break
            line@ == Seq::<char>::empty(),
        invariant
            k <= ls@.len(),
            all == crate::text::views(ls@),
            first_nonblank(all) == first_nonblank(all.skip(k as int)),
        ensures
            line@ == first_nonblank(all),
        decreases ls.len() - k,
    {
        let t = trim(ls[k].as_slice());
        proof {
            assert(all.skip(k as int)[0] == ls@[k as int]@);
            assert(all.skip(k as int).drop_first() =~= all.skip(k + 1));
        }
        if t.len() > 0 {
            line = t;
            break;
        }
        k = k + 1;
        proof {
            if k == ls@.len() {
                assert(all.skip(k as int) =~= Seq::<Seq<char>>::empty());
            }
        }
    }
    let mut a: usize = 0;
    while a < line.len() && (line[a] == '/' || line[a] == '!' || line[a] == '.' || line[a] == ' ')
        invariant
            a <= line@.len(),
            forall|i: int| 0 <= i < a ==> is_command_char(#[trigger] line@[i]),
        decreases line.len() - a,
    {
        a = a + 1;
    }
    proof {
        lemma_strip_at(line@, a as int);
    }
    let stripped = crate::text::slice_chars(line.as_slice(), a, line.len());
    let d1 = replace(stripped.as_slice(), chars_of("@everyone").as_slice(), chars_of("everyone").as_slice());
    let d2 = replace(d1.as_slice(), chars_of("@here").as_slice(), chars_of("here").as_slice());
    let n = if d2.len() <= max_chars {
        d2.len()
    } else {
        max_chars
    };
    let cut = crate::text::slice_chars(d2.as_slice(), 0, n);
    proof {
        if d2@.len() <= max_chars {
            assert(cut@ =~= d2@);
        } else {
            assert(cut@ =~= d2@.take(max_chars as int));
        }
    }
    let out = trim(cut.as_slice());
    string_of(out.as_slice())
}

/// A sanitized reply never exceeds the length cap.
pub proof fn lemma_sanitize_capped(reply: Seq<char>, max_chars: nat)
    ensures
        sanitize_spec(reply, max_chars).len() <= max_chars,
{
    let line = strip_command_chars(first_nonblank(lines_spec(reply)));
    let defused = replace_spec(replace_spec(line, "@everyone"@, "everyone"@), "@here"@, "here"@);
    crate::text::lemma_trim_shorter(take_at_most(defused, max_chars));
}

} // verus!
