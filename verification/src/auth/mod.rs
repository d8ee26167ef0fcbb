//! Credentials: stored tokens, the login flow's decisions, and the exchange for
//! a Skype token.
pub mod oauth;
pub mod skype;

use vstd::prelude::*;

verus! {

/// A stored token and the second at which it expires, where that is known.
#[derive(Debug, Clone)]
pub struct StoredToken {
    pub token: String,
    pub expires_at: Option<u64>,
}

/// The second at which a token expires that was issued at `now`.
pub open spec fn expiry(now: u64, expires_in: Option<u64>) -> Option<u64> {
    match expires_in {
        Some(s) => Some(
            if now + s > u64::MAX {
                u64::MAX
            } else {
                (now + s) as u64
            },
        ),
        None => None,
    }
}

/// True of a token whose time has come at `now`.
pub open spec fn expired_at(t: StoredToken, now: u64) -> bool {
    t.expires_at is Some && t.expires_at->0 <= now
}

impl StoredToken {
    /// A token that was issued at `now` for `expires_in` seconds.
    pub fn new(token: String, expires_in: Option<u64>, now: u64) -> (r: StoredToken)
        ensures
            r.token@ == token@,
            r.expires_at == expiry(now, expires_in),
    {
        let expires_at: Option<u64> = match expires_in {
            Some(s) => if s > u64::MAX - now {
                Some(u64::MAX)
            } else {
                Some(now + s)
            },
            None => None,
        };
        StoredToken { token, expires_at }
    }

    /// True when the token has expired at `now`.
    pub fn is_expired(&self, now: u64) -> (r: bool)
        ensures
            r == expired_at(*self, now),
    {
        match self.expires_at {
            Some(e) => e <= now,
            None => false,
        }
    }

    /// A copy of the token.
    pub fn copy(&self) -> (r: StoredToken)
        ensures
            r == *self,
    {
        StoredToken { token: self.token.clone(), expires_at: self.expires_at }
    }
}

/// A copy of an optional token.
pub fn copy_token(t: &Option<StoredToken>) -> (r: Option<StoredToken>)
    ensures
        r == *t,
{
    match t {
        Some(x) => Some(x.copy()),
        None => None,
    }
}

/// A token that was got for some seconds holds until they are over and not longer; one
/// that was got without a limit never runs out.
pub proof fn law_token_holds_for_its_time(t: StoredToken, got: u64, seconds: u64, now: u64)
    requires
        got + seconds <= u64::MAX,
    ensures
        t.expires_at == expiry(got, Some(seconds)) ==> (expired_at(t, now) <==> now >= got
            + seconds),
        t.expires_at == expiry(got, None) ==> !expired_at(t, now),
{
}

/// A token whose end lies beyond what a clock can show holds as long as the clock can
/// show an earlier time.
pub proof fn law_endless_token_holds(t: StoredToken, got: u64, seconds: u64, now: u64)
    requires
        got + seconds > u64::MAX,
        t.expires_at == expiry(got, Some(seconds)),
    ensures
        now < u64::MAX ==> !expired_at(t, now),
{
}

} // verus!
