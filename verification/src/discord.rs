//! Discord output: message text shaping.

pub mod embed;
pub mod ratelimit;
