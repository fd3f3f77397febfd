use bearer_auth::user_authorization::{
    AccessToken, AccessTokenRecord, AuthorizationVerificationError, LookupError, Session,
    UserAuthorization,
};

const FORM: &str = "application/x-www-form-urlencoded";

fn decode_unit(_fields: Vec<(String, String)>) -> Result<(), String> {
    Ok(())
}

fn active(id: u64) -> Option<Result<(AccessTokenRecord, Session), LookupError>> {
    Some(Ok((AccessTokenRecord { id }, Session { id })))
}

fn not_found() -> Option<Result<(AccessTokenRecord, Session), LookupError>> {
    Some(Err(LookupError { not_found: true, message: String::new() }))
}

fn store_down(msg: &str) -> Option<Result<(AccessTokenRecord, Session), LookupError>> {
    Some(Err(LookupError { not_found: false, message: String::from(msg) }))
}

#[test]
fn active_token_yields_the_session() {
    let ua = UserAuthorization::<()>::from_request(
        Some("Bearer abc123"),
        None,
        None,
        decode_unit,
    )
    .unwrap();
    let session = ua.protected(active(7)).unwrap();
    assert_eq!(session, Session { id: 7 });
}

#[test]
fn missing_token_is_rejected_without_a_lookup() {
    let ua = UserAuthorization::<()>::from_request(None, None, None, decode_unit).unwrap();
    let r = ua.protected(None);
    assert!(matches!(r, Err(AuthorizationVerificationError::MissingToken)));
}

#[test]
fn not_found_token_is_invalid() {
    let ua = UserAuthorization::<()>::from_request(
        Some("Bearer expired-token"),
        None,
        None,
        decode_unit,
    )
    .unwrap();
    let r = ua.protected(not_found());
    assert!(matches!(r, Err(AuthorizationVerificationError::InvalidToken)));
}

#[test]
fn other_store_failures_are_internal() {
    let ua = UserAuthorization::<()>::from_request(
        Some("Bearer abc123"),
        None,
        None,
        decode_unit,
    )
    .unwrap();
    let r = ua.protected(store_down("connection reset"));
    match r {
        Err(AuthorizationVerificationError::InternalError(m)) => {
            assert_eq!(m, "connection reset")
        },
        other => panic!("expected an internal failure: {:?}", other),
    }
}

#[test]
fn protected_form_requires_a_decoded_payload() {
    let ua = UserAuthorization::<()>::from_request(
        Some("Bearer abc123"),
        None,
        None,
        decode_unit,
    )
    .unwrap();
    let r = ua.protected_form(None);
    assert!(matches!(r, Err(AuthorizationVerificationError::MissingForm)));
}

#[test]
fn protected_form_yields_session_and_payload() {
    let ua = UserAuthorization::<()>::from_request(
        None,
        Some(FORM),
        Some("access_token=abc123"),
        decode_unit,
    )
    .unwrap();
    let (session, ()) = ua.protected_form(active(3)).unwrap();
    assert_eq!(session, Session { id: 3 });
}

#[test]
fn fetch_resolves_the_located_token() {
    let t = AccessToken::Header(String::from("abc"));
    assert_eq!(t.token().map(|s| s.as_str()), Some("abc"));
    let (record, session) = t.fetch(active(9)).unwrap();
    assert_eq!(record, AccessTokenRecord { id: 9 });
    assert_eq!(session, Session { id: 9 });
    let missing = AccessToken::Missing;
    assert!(missing.token().is_none());
    assert!(matches!(
        missing.fetch(None),
        Err(AuthorizationVerificationError::MissingToken)
    ));
}

#[test]
fn lookup_error_reports_its_classification() {
    let e = LookupError { not_found: true, message: String::new() };
    assert!(e.not_found());
    let v = AuthorizationVerificationError::from(e);
    assert!(matches!(v, AuthorizationVerificationError::InvalidToken));
    let e = LookupError { not_found: false, message: String::from("disk full") };
    assert!(!e.not_found());
    let v = AuthorizationVerificationError::from(e);
    match v {
        AuthorizationVerificationError::InternalError(m) => assert_eq!(m, "disk full"),
        other => panic!("expected an internal failure: {:?}", other),
    }
}
