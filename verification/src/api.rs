//! What the HTTP layer needs from the core: the error body shown to
//! callers, the message that hides internal detail, and the exact header
//! and cookie values each origin client is built with.

use vstd::prelude::*;

verus! {

/// The JSON error body an aggregate endpoint answers failures with.
#[derive(Clone, Debug, PartialEq)]
pub struct ErrorResponse {
    pub message: String,
}

impl ErrorResponse {
    /// An error body carrying `message`.
    pub fn from_message(message: String) -> (r: ErrorResponse)
        ensures
            r.message == message,
    {
        ErrorResponse { message }
    }
}

/// The body an HTML endpoint answers failures with: a short, generic
/// sentence; the real error stays in the server's logs.
pub fn generic_error_message() -> (r: String)
    ensures
        r@ == "Something went wrong"@,
{
    "Something went wrong".to_owned()
}

/// The `Authorization` value for the Bunpro statistics API, from the
/// frontend session token.
pub fn bunpro_token_header_value(token: &str) -> (r: String)
    ensures
        r@ == "Token token="@ + token@,
{
    let mut out: String = "Token token=".to_owned();
    out.append(token);
    out
}

/// The `Cookie` value for the Bunpro login page, from the grammar-app
/// session cookie.
pub fn bunpro_session_cookie_value(cookie: &str) -> (r: String)
    ensures
        r@ == "_grammar_app_session="@ + cookie@,
{
    let mut out: String = "_grammar_app_session=".to_owned();
    out.append(cookie);
    out
}

/// The `Cookie` value for Satori Reader, from the session token.
pub fn satori_cookie_value(cookie: &str) -> (r: String)
    ensures
        r@ == "SessionToken="@ + cookie@,
{
    let mut out: String = "SessionToken=".to_owned();
    out.append(cookie);
    out
}

/// The `Cookie` value for AnkiWeb, from the site cookie.
pub fn anki_cookie_value(cookie: &str) -> (r: String)
    ensures
        r@ == "ankiweb="@ + cookie@,
{
    let mut out: String = "ankiweb=".to_owned();
    out.append(cookie);
    out
}

/// The `Authorization` value for the WaniKani API, from the API token.
pub fn wanikani_bearer_value(token: &str) -> (r: String)
    ensures
        r@ == "Bearer "@ + token@,
{
    let mut out: String = "Bearer ".to_owned();
    out.append(token);
    out
}

} // verus!
