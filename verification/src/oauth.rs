//! Plain data of the sign-in callback flow, and the session a successful
//! callback creates. The HTTP exchanges themselves live outside the
//! library; only their decision logic is here.

use vstd::prelude::*;

use crate::persist::{format_session_cookie, UserSession};

verus! {

/// Seconds a dashboard session stays valid.
pub const SESSION_LIFETIME_SECONDS: i64 = 86400;

/// The code the provider redirects back with.
pub struct GithubToken {
    pub code: String,
}

/// The body posted back to the provider to exchange the code.
pub struct Callback {
    pub code: String,
}

/// The provider's answer to the code exchange.
pub struct GithubCallback {
    pub token_type: String,
    pub scope: String,
    pub access_token: String,
}

/// The signed-in user's public name.
pub struct GithubUserResponse {
    pub name: String,
}

/// The exchange request body echoes the callback code.
pub fn callback_of(token: &GithubToken) -> (r: Callback)
    ensures
        r.code@ == token.code@,
{
    Callback { code: token.code.clone() }
}

/// The session a successful callback creates: named after the signed-in
/// user, keyed by the access token, expiring one day from now.
pub fn build_user_session(login: String, access_token: String, now: i64) -> (r: UserSession)
    requires
        0 <= now <= i64::MAX - SESSION_LIFETIME_SECONDS,
    ensures
        r.name == login,
        r.session_id == access_token,
        r.expires_at == now + SESSION_LIFETIME_SECONDS,
{
    UserSession { name: login, session_id: access_token, expires_at: now + SESSION_LIFETIME_SECONDS }
}

/// The cookie value a successful callback sets: the user's login and the
/// access token, framed for `check_record_exists` to split again.
pub fn session_cookie_value(login: &str, access_token: &str) -> (r: String)
    ensures
        r@ == login@ + "--"@ + access_token@,
{
    format_session_cookie(login, access_token)
}

} // verus!
