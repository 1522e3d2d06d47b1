//! Normalizing Twitch chat messages: identity and badge signals of a
//! PRIVMSG become a `ChatEvent`.

use vstd::prelude::*;
use crate::text::{chars_eq, chars_of, parse_unsigned, parse_unsigned_chars};
use crate::types::ChatEvent;

verus! {

/// Settings of the chat worker.
pub struct ChatCfg {
    pub channel: String,
    pub bot_username: Option<String>,
    pub bot_refresh_token: Option<String>,
    pub client_id: String,
    pub client_secret: String,
}

/// One IRC badge: its name and version (for `badge-info`, the version holds
/// the number of months).
#[derive(Debug, Clone)]
pub struct Badge {
    pub name: String,
    pub version: String,
}

/// The parts of a Twitch PRIVMSG that a chat event is made from.
#[derive(Debug, Clone)]
pub struct Privmsg {
    pub sender_name: String,
    pub sender_login: String,
    pub sender_id: String,
    pub message_id: String,
    pub message_text: String,
    pub badges: Vec<Badge>,
    pub badge_info: Vec<Badge>,
}

/// Some badge of `bs` is named `name`.
pub open spec fn has_badge(bs: Seq<Badge>, name: Seq<char>) -> bool {
    exists|i: int| 0 <= i < bs.len() && (#[trigger] bs[i]).name@ == name
}

/// A badge that carries subscription months: `subscriber` or `founder`.
pub open spec fn is_tenure_badge(b: Badge) -> bool {
    b.name@ == "subscriber"@ || b.name@ == "founder"@
}

/// Index of the first tenure badge of `bs` at or after `i` (`bs.len()` if
/// none).
pub open spec fn first_tenure_index(bs: Seq<Badge>, i: int) -> int
    decreases bs.len() - i,
{
    if i < 0 || i >= bs.len() {
        bs.len() as int
    } else if is_tenure_badge(bs[i]) {
        i
    } else {
        first_tenure_index(bs, i + 1)
    }
}

/// Subscription months: the version of the first `subscriber` or `founder`
/// entry of `badge-info`, when it parses as a `u32`; 0 otherwise.
pub open spec fn sub_months_spec(info: Seq<Badge>) -> u32 {
    let i = first_tenure_index(info, 0);
    if i < info.len() {
        match parse_unsigned(info[i].version@, u32::MAX as nat) {
            Some(n) => n as u32,
            None => 0,
        }
    } else {
        0
    }
}

/// The chat event for a message.
pub open spec fn event_spec(m: Privmsg) -> ChatEvent {
    ChatEvent {
        user: m.sender_name,
        login: m.sender_login,
        user_id: m.sender_id,
        message_id: m.message_id,
        text: m.message_text,
        sub_months: sub_months_spec(m.badge_info@),
        is_mod: has_badge(m.badges@, "moderator"@),
        is_vip: has_badge(m.badges@, "vip"@),
        is_sub: has_badge(m.badges@, "subscriber"@) || has_badge(m.badges@, "founder"@),
        is_founder: has_badge(m.badges@, "founder"@),
        is_broadcaster: has_badge(m.badges@, "broadcaster"@),
    }
}

fn has(bs: &Vec<Badge>, name: &str) -> (b: bool)
    ensures
        b == has_badge(bs@, name@),
{
    let target = chars_of(name);
    let mut i: usize = 0;
    while i < bs.len()
        invariant
            i <= bs@.len(),
            target@ == name@,
            forall|j: int| 0 <= j < i ==> (#[trigger] bs@[j]).name@ != name@,
        decreases bs.len() - i,
    {
        if chars_eq(chars_of(bs[i].name.as_str()).as_slice(), target.as_slice()) {
            return true;
        }
        i = i + 1;
    }
    false
}

fn sub_months(info: &Vec<Badge>) -> (n: u32)
    ensures
        n == sub_months_spec(info@),
{
    let subscriber = chars_of("subscriber");
    let founder = chars_of("founder");
    let mut i: usize = 0;
    while i < info.len()
        invariant
            i <= info@.len(),
            subscriber@ == "subscriber"@,
            founder@ == "founder"@,
            first_tenure_index(info@, i as int) == first_tenure_index(info@, 0),
        decreases info.len() - i,
    {
        let name = chars_of(info[i].name.as_str());
        if chars_eq(name.as_slice(), subscriber.as_slice()) || chars_eq(
            name.as_slice(),
            founder.as_slice(),
        ) {
            let v = chars_of(info[i].version.as_str());
            return match parse_unsigned_chars(v.as_slice(), 0xFFFF_FFFF) {
                Some(n) => n as u32,
                None => 0,
            };
        }
        i = i + 1;
    }
    0
}

/// Builds the chat event for a message: identity from the sender, badges
/// turned into role flags (a founder also counts as a subscriber), and
/// subscription months from `badge-info`.
pub fn to_event(m: Privmsg) -> (ev: ChatEvent)
    ensures
        ev == event_spec(m),
{
    let months = sub_months(&m.badge_info);
    let is_mod = has(&m.badges, "moderator");
    let is_vip = has(&m.badges, "vip");
    let is_sub = has(&m.badges, "subscriber") || has(&m.badges, "founder");
    let is_founder = has(&m.badges, "founder");
    let is_broadcaster = has(&m.badges, "broadcaster");
    ChatEvent {
        user: m.sender_name,
        login: m.sender_login,
        user_id: m.sender_id,
        message_id: m.message_id,
        text: m.message_text,
        sub_months: months,
        is_mod,
        is_vip,
        is_sub,
        is_founder,
        is_broadcaster,
    }
}

} // verus!
