//! Twitch integration logic: playlist parsing, chat message normalization,
//! the online/offline debouncer, and the Helix token cache.

pub mod hls;
pub mod chat;
pub mod lifecycle;
pub mod helix;
