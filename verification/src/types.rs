//! Shared domain types passed between workers.

use vstd::prelude::*;

verus! {

/// Live stream metadata from Helix (present only while online).
#[derive(Debug, Clone, Default)]
pub struct StreamInfo {
    pub title: String,
    pub game: String,
    pub started_at: String,
    pub viewers: u64,
}

/// Current stream status.
#[derive(Debug, Clone, Copy, Default, PartialEq, Eq, Structural)]
pub enum StreamStatus {
    #[default]
    Offline,
    Online,
}

impl StreamStatus {
    /// Whether the stream is live.
    pub fn is_online(&self) -> (b: bool)
        ensures
            b == (*self == StreamStatus::Online),
    {
        match self {
            StreamStatus::Online => true,
            StreamStatus::Offline => false,
        }
    }
}

/// A single chat message, normalized from Twitch IRC (with identity/badges).
#[derive(Debug, Clone)]
pub struct ChatEvent {
    /// Display name.
    pub user: String,
    /// Lowercase login.
    pub login: String,
    pub user_id: String,
    /// IRC message id (for threaded replies).
    pub message_id: String,
    pub text: String,
    pub sub_months: u32,
    pub is_mod: bool,
    pub is_vip: bool,
    pub is_sub: bool,
    pub is_founder: bool,
    pub is_broadcaster: bool,
}

/// A message the bot wants to send to chat. `reply_to` = a message id to
/// thread-reply to; `None` = a normal message.
#[derive(Debug, Clone)]
pub struct OutboundChat {
    pub text: String,
    pub reply_to: Option<String>,
}

/// A finalized transcript span from the STT provider.
#[derive(Debug, Clone)]
pub struct TranscriptSegment {
    pub text: String,
}

/// A notable moment reported by the analysis: a timestamp and a note.
#[derive(Debug, Clone)]
pub struct KeyMoment {
    pub timestamp: String,
    pub note: String,
}

} // verus!
