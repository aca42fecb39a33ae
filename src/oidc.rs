//! Claims that access tokens carry besides the registered ones.
use vstd::prelude::*;

verus! {

/// Access token claims.
#[derive(Clone, Debug)]
pub struct AccessTokenClaims {
    pub azp: Option<String>,
    pub auth_time: Option<u64>,
    pub scope: String,
    pub preferred_username: Option<String>,
    pub email_verified: Option<bool>,
}

impl Default for AccessTokenClaims {
    fn default() -> (r: AccessTokenClaims)
        ensures
            r.azp is None,
            r.auth_time is None,
            r.scope@.len() == 0,
            r.preferred_username is None,
            r.email_verified is None,
    {
        AccessTokenClaims {
            azp: None,
            auth_time: None,
            scope: String::new(),
            preferred_username: None,
            email_verified: None,
        }
    }
}

} // verus!
