//! The Helix app-token cache: a client-credentials token is reused until a
//! minute before it expires, and dropped when Helix refuses it. The HTTP
//! requests themselves are made by the app.

use vstd::prelude::*;
use crate::clock::{Duration, Instant};

verus! {

/// Seconds before the announced expiry at which a token stops being used.
pub const EXPIRY_MARGIN_SECS: u64 = 60;

/// The instant at which a token granted at `now` for `expires_in` seconds
/// stops being used: `now` plus `expires_in` less the margin (not below
/// zero), capped at the largest instant.
pub open spec fn expiry_of(now: int, expires_in: nat) -> int {
    let secs = if expires_in >= EXPIRY_MARGIN_SECS {
        expires_in - EXPIRY_MARGIN_SECS
    } else {
        0
    };
    let t = now + secs * 1_000_000_000;
    if t <= u128::MAX {
        t
    } else {
        u128::MAX as int
    }
}

/// The token a cache holding `cached` hands out at `now`: the cached one
/// while `now` is before its expiry, nothing otherwise.
pub open spec fn usable_token(cached: Option<(Seq<char>, int)>, now: int) -> Option<Seq<char>> {
    match cached {
        Some((t, exp)) => if now < exp {
            Some(t)
        } else {
            None
        },
        None => None,
    }
}

/// A cached app access token and the instant at which it stops being used.
pub struct TokenCache {
    token: Option<(String, Instant)>,
}

impl TokenCache {
    /// The cached token and its expiry, if any.
    pub closed spec fn cached(&self) -> Option<(Seq<char>, int)> {
        match self.token {
            Some((t, exp)) => Some((t@, exp@)),
            None => None,
        }
    }

    /// An empty cache.
    pub fn new() -> (c: TokenCache)
        ensures
            c.cached() is None,
    {
        TokenCache { token: None }
    }

    /// The cached token if it is still usable at `now` (strictly before its
    /// expiry); `None` means a new token must be requested.
    pub fn valid_token(&self, now: Instant) -> (r: Option<String>)
        ensures
            match r {
                Some(t) => usable_token(self.cached(), now@) == Some(t@),
                None => usable_token(self.cached(), now@) is None,
            },
    {
        match &self.token {
            Some((t, exp)) => {
                if now.as_nanos() < exp.as_nanos() {
                    Some(t.clone())
                } else {
                    None
                }
            },
            None => None,
        }
    }

    /// Stores a token granted at `now`, valid for `expires_in` seconds.
    pub fn store(&mut self, access_token: String, expires_in: u64, now: Instant)
        ensures
            final(self).cached() == Some((access_token@, expiry_of(now@, expires_in as nat))),
    {
        let secs = expires_in.saturating_sub(EXPIRY_MARGIN_SECS);
        let d = Duration::from_secs(secs);
        let exp = if now.as_nanos() <= u128::MAX - d.as_nanos() {
            now.plus(d)
        } else {
            Instant::from_nanos(u128::MAX)
        };
        self.token = Some((access_token, exp));
    }

    /// Drops the token (Helix refused it), so the next poll requests a new
    /// one.
    pub fn clear(&mut self)
        ensures
            final(self).cached() is None,
    {
        self.token = None;
    }
}

/// A token stored when granted at `granted` is handed out at every later
/// time before its expiry and at none from its expiry on; a token granted for
/// no more than the margin is never handed out at or after the grant.
pub proof fn lemma_token_reused_until_expiry(
    token: Seq<char>,
    granted: int,
    expires_in: nat,
    asked: int,
)
    requires
        0 <= granted <= u128::MAX,
    ensures
        granted <= expiry_of(granted, expires_in),
        usable_token(Some((token, expiry_of(granted, expires_in))), asked) == if asked < expiry_of(
            granted,
            expires_in,
        ) {
            Some(token)
        } else {
            None
        },
        expires_in <= EXPIRY_MARGIN_SECS && asked >= granted ==> usable_token(
            Some((token, expiry_of(granted, expires_in))),
            asked,
        ) is None,
{
}

} // verus!
