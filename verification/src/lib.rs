//! Verified core of a Twitch -> Discord stream summarizer: the context
//! window and summary triggers, backoff, the spend ledger, rate limiting,
//! stream debouncing, chat decisions, text shaping, playlist parsing, and
//! the WAV/Base64 encodings of speech-to-text requests. I/O lives in the
//! app crate.

pub mod clock;
pub mod text;
pub mod discord;
pub mod aggregate;
pub mod backoff;
pub mod types;
pub mod interaction;
pub mod config;
pub mod twitch;
pub mod cost;
pub mod analysis;
pub mod stt;
pub mod storage;
pub mod supervisor;
pub mod audio;
pub mod util;
