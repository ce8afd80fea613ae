//! The header and cookie values the origin clients are built with, and
//! the error bodies the HTTP layer shows.

use study_tracker::api::{
    anki_cookie_value, bunpro_session_cookie_value, bunpro_token_header_value,
    generic_error_message, satori_cookie_value, wanikani_bearer_value, ErrorResponse,
};
use study_tracker::cacheable::FetchError;

#[test]
fn client_credential_values_are_exact() {
    assert_eq!(bunpro_token_header_value("abc"), "Token token=abc");
    assert_eq!(bunpro_session_cookie_value("abc"), "_grammar_app_session=abc");
    assert_eq!(satori_cookie_value("abc"), "SessionToken=abc");
    assert_eq!(anki_cookie_value("abc"), "ankiweb=abc");
    assert_eq!(wanikani_bearer_value("abc"), "Bearer abc");
}

#[test]
fn error_bodies_carry_their_message() {
    let body = ErrorResponse::from_message("deck review counts overflow".to_owned());
    assert_eq!(body.message, "deck review counts overflow");

    assert_eq!(generic_error_message(), "Something went wrong");
}

#[test]
fn fetch_errors_describe_themselves() {
    assert_eq!(
        FetchError::Network("connection reset".to_owned()).message(),
        "connection reset"
    );
    assert_eq!(
        FetchError::HttpStatus(503).message(),
        "origin returned a non-success status"
    );
    assert_eq!(
        FetchError::MissingCredential("SATORI_COOKIE".to_owned()).message(),
        "SATORI_COOKIE"
    );
}
