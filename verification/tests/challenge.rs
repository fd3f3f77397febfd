use bearer_auth::challenge::{BearerError, ErrorResponse, WwwAuthenticate};
use bearer_auth::user_authorization::{
    AuthorizationVerificationError, UserAuthorization, UserAuthorizationError,
};

const FORM: &str = "application/x-www-form-urlencoded";

fn decode_unit(_fields: Vec<(String, String)>) -> Result<(), String> {
    Ok(())
}

#[test]
fn invalid_token_challenge_is_exact() {
    let r: ErrorResponse = AuthorizationVerificationError::InvalidToken.into_response();
    assert_eq!(r.status, 400);
    assert_eq!(r.www_authenticate.as_deref(), Some("Bearer error=\"invalid_token\""));
    assert_eq!(r.body, "");
}

#[test]
fn missing_token_challenge_is_exact() {
    let r = AuthorizationVerificationError::MissingToken.into_response();
    assert_eq!(r.status, 400);
    assert_eq!(r.www_authenticate.as_deref(), Some("Bearer error=\"invalid_request\""));
    assert_eq!(r.body, "");
}

#[test]
fn missing_form_challenge_is_invalid_request() {
    let r = AuthorizationVerificationError::MissingForm.into_response();
    assert_eq!(r.status, 400);
    assert_eq!(r.www_authenticate.as_deref(), Some("Bearer error=\"invalid_request\""));
}

#[test]
fn verification_internal_error_is_a_bare_500() {
    let r = AuthorizationVerificationError::InternalError(String::from("boom")).into_response();
    assert_eq!(r.status, 500);
    assert!(r.www_authenticate.is_none());
    assert_eq!(r.body, "boom");
}

#[test]
fn extraction_errors_share_the_invalid_request_challenge() {
    for e in [
        UserAuthorizationError::InvalidHeader,
        UserAuthorizationError::TokenInFormAndHeader,
        UserAuthorizationError::BadForm(String::from("details")),
    ] {
        let r = e.into_response();
        assert_eq!(r.status, 400);
        assert_eq!(r.www_authenticate.as_deref(), Some("Bearer error=\"invalid_request\""));
        assert_eq!(r.body, "");
    }
}

#[test]
fn extraction_internal_error_is_a_bare_500() {
    let r = UserAuthorizationError::InternalError(String::from("cause text")).into_response();
    assert_eq!(r.status, 500);
    assert!(r.www_authenticate.is_none());
    assert_eq!(r.body, "cause text");
}

#[test]
fn conflict_produces_the_documented_response() {
    let e = UserAuthorization::<()>::from_request(
        Some("Bearer abc123"),
        Some(FORM),
        Some("access_token=abc123"),
        decode_unit,
    )
    .unwrap_err();
    let r = e.into_response();
    assert_eq!(r.status, 400);
    assert_eq!(r.www_authenticate.as_deref(), Some("Bearer error=\"invalid_request\""));
}

#[test]
fn bearer_parameters_come_in_a_fixed_order() {
    let w = WwwAuthenticate::Bearer {
        realm: Some(String::from("example")),
        error: BearerError::InsufficientScope { scope: Some(String::from("openid profile")) },
        error_description: Some(String::from("more scope needed")),
    };
    let s = w.encode().unwrap();
    assert_eq!(
        s,
        "Bearer error=\"insufficient_scope\", error_description=\"more scope needed\", \
         scope=\"openid profile\", realm=\"example\""
    );
}

#[test]
fn quoted_values_escape_quotes_and_backslashes() {
    let w = WwwAuthenticate::Bearer {
        realm: None,
        error: BearerError::InvalidRequest,
        error_description: Some(String::from("say \"hi\" \\ now")),
    };
    let s = w.encode().unwrap();
    assert_eq!(
        s,
        "Bearer error=\"invalid_request\", error_description=\"say \\\"hi\\\" \\\\ now\""
    );
}

#[test]
fn unquotable_values_fail_encoding() {
    let w = WwwAuthenticate::Bearer {
        realm: Some(String::from("line\nbreak")),
        error: BearerError::InvalidRequest,
        error_description: None,
    };
    assert!(w.encode().is_none());
    assert!(w.header_value().is_none());
}

#[test]
fn basic_challenge_carries_only_the_realm() {
    let w = WwwAuthenticate::Basic { realm: String::from("users") };
    assert_eq!(w.encode().unwrap(), "Basic realm=\"users\"");
}

#[test]
fn header_value_matches_the_encoded_challenge() {
    let w = WwwAuthenticate::Bearer {
        realm: None,
        error: BearerError::InvalidToken,
        error_description: None,
    };
    let hv = w.header_value().unwrap();
    assert_eq!(hv, http::HeaderValue::from_static("Bearer error=\"invalid_token\""));
    assert_eq!(hv.to_str().unwrap(), w.encode().unwrap());
}

#[test]
fn error_codes_are_the_rfc_strings() {
    assert_eq!(BearerError::InvalidRequest.error(), "invalid_request");
    assert_eq!(BearerError::InvalidToken.error(), "invalid_token");
    assert_eq!(BearerError::InsufficientScope { scope: None }.error(), "insufficient_scope");
}
