//! Service-account access tokens: when a cached token is reused, what the
//! signed claims hold, and when a new token expires.
use vstd::prelude::*;
use crate::google_calendar::types::CachedGoogleToken;

verus! {

/// The access the calendar sync asks for.
pub const GOOGLE_SCOPE: &'static str = "https://www.googleapis.com/auth/calendar.readonly";

/// The grant type of a service-account token request.
pub const JWT_GRANT_TYPE: &'static str = "urn:ietf:params:oauth:grant-type:jwt-bearer";

/// A cached token is reused while it has more than 30 seconds left.
pub fn reusable_token(cache: &Option<CachedGoogleToken>, now: i64) -> (r: Option<String>)
    ensures
        match *cache {
            Some(c) => if c.expires_at > now + 30 {
                r matches Some(t) && t@ == c.access_token@
            } else {
                r is None
            },
            None => r is None,
        },
{
    match cache {
        Some(c) => {
            if (c.expires_at as i128) > (now as i128) + 30 {
                Some(c.access_token.clone())
            } else {
                None
            }
        },
        None => None,
    }
}

/// The claims of the signed token request.
#[derive(Clone, Debug)]
pub struct GoogleJwtClaims {
    pub iss: String,
    pub scope: String,
    pub aud: String,
    pub iat: i64,
    pub exp: i64,
}

/// The claims for a service account at an instant: issued now, expiring 59
/// minutes later, for the calendar scope at the account's token endpoint.
pub fn jwt_claims(client_email: &str, token_uri: &str, now: i64) -> (r: GoogleJwtClaims)
    requires
        now + 3540 <= i64::MAX,
    ensures
        r.iss@ == client_email@,
        r.scope@ == GOOGLE_SCOPE@,
        r.aud@ == token_uri@,
        r.iat == now,
        r.exp == now + 3540,
{
    GoogleJwtClaims {
        iss: client_email.to_owned(),
        scope: GOOGLE_SCOPE.to_owned(),
        aud: token_uri.to_owned(),
        iat: now,
        exp: now + 3540,
    }
}

/// When a new token is treated as expired: its lifetime (at least 60
/// seconds) less 30 seconds after the present.
pub fn token_expiry(now: i64, expires_in: u64) -> (r: i64)
    requires
        now + (if expires_in < 60 { 60 } else { expires_in }) - 30 <= i64::MAX,
    ensures
        r == now + (if expires_in < 60 { 60 } else { expires_in }) - 30,
{
    let life: u64 = if expires_in < 60 {
        60
    } else {
        expires_in
    };
    let end: i128 = (now as i128) + (life as i128) - 30;
    end as i64
}

} // verus!
