//! Building the requests for the LLM analysis and reading its reply: the
//! incremental summary prompts, endpoint URLs, and locating the JSON object
//! in a reply, and pricing a call. The HTTP exchange and JSON decoding
//! happen in the app.

use vstd::prelude::*;
use crate::text::{chars_of, is_blank, string_of, trim_spec};

verus! {

/// The system prompt before the channel name.
pub const SUMMARY_SYSTEM_HEAD: &'static str = "Você é um analista de uma transmissão ao vivo na Twitch do canal ";

/// The system prompt after the channel name.
pub const SUMMARY_SYSTEM_TAIL: &'static str = ". Você recebe o RESUMO ANTERIOR e NOVO CONTEÚDO (mensagens de chat e falas transcritas). Produza uma análise incremental em português do Brasil. Responda APENAS com JSON válido, sem markdown, no formato exato: {\"topics\":[\"...\"],\"sentiment\":{\"mood\":\"...\",\"score\":-1.0},\"key_moments\":[{\"t\":\"mm:ss\",\"note\":\"...\"}],\"running_summary\":\"...\",\"streamer_mood\":{\"label\":\"neutra|animada|tiltada|cansada|focada\",\"intensity\":0.0}}. O campo running_summary deve atualizar e incorporar o resumo anterior, sem repeti-lo por completo. O sentiment é o clima do CHAT; o streamer_mood é o estado da STREAMER inferido das linhas [fala] (intensity de 0.0 a 1.0). O score de sentimento vai de -1.0 (muito negativo) a 1.0 (muito positivo).";

/// What stands in for an empty prior summary.
pub const NO_PRIOR: &'static str = "(nenhum ainda)";

/// The system prompt of an incremental summary for `channel`.
pub open spec fn summary_system_spec(channel: Seq<char>) -> Seq<char> {
    SUMMARY_SYSTEM_HEAD@ + channel + SUMMARY_SYSTEM_TAIL@
}

/// The user prompt of an incremental summary: the prior summary (or a
/// placeholder when it is blank), then the new content.
pub open spec fn summary_user_spec(prior: Seq<char>, delta: Seq<char>) -> Seq<char> {
    let p = if trim_spec(prior).len() == 0 {
        NO_PRIOR@
    } else {
        prior
    };
    "RESUMO ANTERIOR:\n"@ + p + "\n\nNOVO CONTEÚDO:\n"@ + delta
}

/// The `(system, user)` prompts for one incremental summary.
pub fn summary_prompts(channel: &str, prior_summary: &str, delta: &str) -> (r: (String, String))
    ensures
        r.0@ == summary_system_spec(channel@),
        r.1@ == summary_user_spec(prior_summary@, delta@),
{
    let mut system = String::new();
    system.append(SUMMARY_SYSTEM_HEAD);
    system.append(channel);
    system.append(SUMMARY_SYSTEM_TAIL);
    let prior: &str = if is_blank(chars_of(prior_summary).as_slice()) {
        NO_PRIOR
    } else {
        prior_summary
    };
    let mut user = String::new();
    user.append("RESUMO ANTERIOR:\n");
    user.append(prior);
    user.append("\n\nNOVO CONTEÚDO:\n");
    user.append(delta);
    (system, user)
}

/// `s` without trailing `/` characters.
pub open spec fn strip_trailing_slashes(s: Seq<char>) -> Seq<char>
    decreases s.len(),
{
    if s.len() > 0 && s.last() == '/' {
        strip_trailing_slashes(s.drop_last())
    } else {
        s
    }
}

proof fn lemma_strip_trailing_at(s: Seq<char>, k: int)
    requires
        0 <= k <= s.len(),
        forall|i: int| k <= i < s.len() ==> s[i] == '/',
        k == 0 || s[k - 1] != '/',
    ensures
        strip_trailing_slashes(s) == s.subrange(0, k),
    decreases s.len() - k,
{
    if k == s.len() {
        assert(s.subrange(0, k) =~= s);
    } else {
        lemma_strip_trailing_at(s.drop_last(), k);
        assert(s.drop_last().subrange(0, k) =~= s.subrange(0, k));
    }
}

/// The URL of endpoint `path` under `base_url`: the base without trailing
/// slashes, then the path.
pub fn endpoint_url(base_url: &str, path: &str) -> (u: String)
    ensures
        u@ == strip_trailing_slashes(base_url@) + path@,
{
    let b = chars_of(base_url);
    let mut k: usize = b.len();
    while k > 0 && b[k - 1] == '/'
        invariant
            k <= b@.len(),
            forall|i: int| k <= i < b@.len() ==> b@[i] == '/',
        decreases k,
    {
        k = k - 1;
    }
    proof {
        lemma_strip_trailing_at(b@, k as int);
    }
    let base = crate::text::slice_chars(b.as_slice(), 0, k);
    let mut u = string_of(base.as_slice());
    u.append(path);
    u
}

/// Why no JSON object could be located in a reply.
#[derive(Debug, Clone, Copy, PartialEq, Eq, Structural)]
pub enum JsonSliceError {
    /// No `{` in the reply.
    NoObject,
    /// No `}` in the reply.
    NoClosingBrace,
    /// The last `}` comes before the first `{`.
    MalformedBraces,
}

/// `i` is the index of the first `c` in `s`.
pub open spec fn is_first(s: Seq<char>, c: char, i: int) -> bool {
    0 <= i < s.len() && s[i] == c && forall|j: int| 0 <= j < i ==> s[j] != c
}

/// `i` is the index of the last `c` in `s`.
pub open spec fn is_last(s: Seq<char>, c: char, i: int) -> bool {
    0 <= i < s.len() && s[i] == c && forall|j: int| i < j < s.len() ==> s[j] != c
}

/// The span from the first `{` to the last `}` of a model reply (models
/// sometimes wrap the object in prose or markdown fences).
pub fn extract_json_object(content: &str) -> (r: Result<String, JsonSliceError>)
    ensures
        r matches Err(JsonSliceError::NoObject) <==> !content@.contains('{'),
        r matches Err(JsonSliceError::NoClosingBrace) <==> (content@.contains('{')
            && !content@.contains('}')),
        r matches Err(JsonSliceError::MalformedBraces) <==> exists|a: int, b: int|
            is_first(content@, '{', a) && is_last(content@, '}', b) && b < a,
        r matches Ok(j) ==> exists|a: int, b: int|
            is_first(content@, '{', a) && is_last(content@, '}', b) && a <= b && j@
                == content@.subrange(a, b + 1),
{
    let s = chars_of(content);
    let n = s.len();
    let mut a: usize = 0;
    while a < n && s[a] != '{'
        invariant
            a <= n,
            n == s@.len(),
            forall|j: int| 0 <= j < a ==> s@[j] != '{',
        decreases n - a,
    {
        a = a + 1;
    }
    if a == n {
        proof {
            if s@.contains('{') {
                let j = choose|j: int| 0 <= j < s@.len() && s@[j] == '{';
                assert(s@[j] != '{');
            }
        }
        return Err(JsonSliceError::NoObject);
    }
    let mut b: usize = n;
    while b > 0 && s[b - 1] != '}'
        invariant
            b <= n,
            n == s@.len(),
            forall|j: int| b <= j < n ==> s@[j] != '}',
        decreases b,
    {
        b = b - 1;
    }
    assert(is_first(s@, '{', a as int));
    assert(s@.contains('{'));
    if b == 0 {
        proof {
            if s@.contains('}') {
                let j = choose|j: int| 0 <= j < s@.len() && s@[j] == '}';
                assert(s@[j] != '}');
            }
        }
        return Err(JsonSliceError::NoClosingBrace);
    }
    let end = b - 1;
    assert(is_last(s@, '}', end as int));
    assert(s@.contains('}'));
    proof {
        assert forall|x: int, y: int|
            is_first(s@, '{', x) && is_last(s@, '}', y) implies x == a && y == end by {
            if x < a {
                assert(s@[x] != '{');
            }
            if a < x {
                assert(s@[a as int] != '{');
            }
            if y < end {
                assert(s@[end as int] != '}');
            }
            if end < y {
                assert(s@[y] != '}');
            }
        }
    }
    if end < a {
        return Err(JsonSliceError::MalformedBraces);
    }
    let slice = crate::text::slice_chars(s.as_slice(), a, end + 1);
    Ok(string_of(slice.as_slice()))
}

/// Price of one prompt token in micro-dollars (1 USD per million tokens).
pub const INPUT_MICROS_PER_TOKEN: u64 = 1;

/// Price of one completion token in micro-dollars (3 USD per million
/// tokens).
pub const OUTPUT_MICROS_PER_TOKEN: u64 = 3;

/// The cost of a call in micro-dollars: prompt tokens at the input price
/// plus completion tokens at the output price.
pub open spec fn llm_cost_spec(prompt_tokens: nat, completion_tokens: nat) -> nat {
    prompt_tokens * INPUT_MICROS_PER_TOKEN as nat + completion_tokens * OUTPUT_MICROS_PER_TOKEN as nat
}

/// The cost of a call with the given token usage, in micro-dollars
/// (saturating at `u64::MAX`).
pub fn llm_cost_micros(prompt_tokens: u64, completion_tokens: u64) -> (c: u64)
    ensures
        c == if llm_cost_spec(prompt_tokens as nat, completion_tokens as nat) <= u64::MAX {
            llm_cost_spec(prompt_tokens as nat, completion_tokens as nat)
        } else {
            u64::MAX as nat
        },
{
    let in_price = INPUT_MICROS_PER_TOKEN as u128;
    let out_price = OUTPUT_MICROS_PER_TOKEN as u128;
    assert(in_price == 1 && out_price == 3);
    let p = prompt_tokens as u128 * in_price;
    let q = completion_tokens as u128 * out_price;
    let total = p + q;
    if total <= u64::MAX as u128 {
        total as u64
    } else {
        u64::MAX
    }
}

} // verus!
