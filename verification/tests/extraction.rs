use bearer_auth::user_authorization::{AccessToken, UserAuthorization, UserAuthorizationError};

const FORM: &str = "application/x-www-form-urlencoded";

#[derive(Debug, PartialEq)]
struct Payload {
    foo: String,
}

fn decode_payload(fields: Vec<(String, String)>) -> Result<Payload, String> {
    for (name, value) in fields {
        if name == "foo" {
            return Ok(Payload { foo: value });
        }
    }
    Err(String::from("missing field foo"))
}

fn decode_unit(_fields: Vec<(String, String)>) -> Result<(), String> {
    Ok(())
}

#[test]
fn header_only_extracts_from_header() {
    let r = UserAuthorization::<()>::from_request(
        Some("Bearer abc123"),
        None,
        None,
        decode_unit,
    )
    .unwrap();
    match r.access_token {
        AccessToken::Header(t) => assert_eq!(t, "abc123"),
        other => panic!("wrong source: {:?}", other),
    }
    assert!(r.form.is_none());
}

#[test]
fn form_only_extracts_from_form_with_payload() {
    let r = UserAuthorization::<Payload>::from_request(
        None,
        Some(FORM),
        Some("access_token=abc123&foo=bar"),
        decode_payload,
    )
    .unwrap();
    match r.access_token {
        AccessToken::Form(t) => assert_eq!(t, "abc123"),
        other => panic!("wrong source: {:?}", other),
    }
    assert_eq!(r.form, Some(Payload { foo: String::from("bar") }));
}

#[test]
fn no_token_anywhere_is_absent() {
    let r = UserAuthorization::<Payload>::from_request(
        None,
        Some(FORM),
        Some("foo=bar"),
        decode_payload,
    )
    .unwrap();
    assert!(matches!(r.access_token, AccessToken::Missing));
    assert_eq!(r.form, Some(Payload { foo: String::from("bar") }));
}

#[test]
fn token_in_both_places_is_a_conflict() {
    let r = UserAuthorization::<Payload>::from_request(
        Some("Bearer abc123"),
        Some(FORM),
        Some("access_token=abc123&foo=bar"),
        decode_payload,
    );
    assert!(matches!(r, Err(UserAuthorizationError::TokenInFormAndHeader)));
}

#[test]
fn payload_decodes_whichever_side_the_token_came_from() {
    let by_form = UserAuthorization::<Payload>::from_request(
        None,
        Some(FORM),
        Some("access_token=t&foo=bar"),
        decode_payload,
    )
    .unwrap();
    let by_header = UserAuthorization::<Payload>::from_request(
        Some("Bearer t"),
        Some(FORM),
        Some("foo=bar"),
        decode_payload,
    )
    .unwrap();
    assert_eq!(by_form.form, Some(Payload { foo: String::from("bar") }));
    assert_eq!(by_header.form, Some(Payload { foo: String::from("bar") }));
}

#[test]
fn malformed_header_is_rejected() {
    let r = UserAuthorization::<()>::from_request(Some("Basic abc"), None, None, decode_unit);
    assert!(matches!(r, Err(UserAuthorizationError::InvalidHeader)));
    let r = UserAuthorization::<()>::from_request(Some("Bearer"), None, None, decode_unit);
    assert!(matches!(r, Err(UserAuthorizationError::InvalidHeader)));
    let r = UserAuthorization::<()>::from_request(Some("Bearer a b"), None, None, decode_unit);
    assert!(matches!(r, Err(UserAuthorizationError::InvalidHeader)));
}

#[test]
fn bearer_scheme_is_case_insensitive() {
    let r = UserAuthorization::<()>::from_request(
        Some("bEaReR token-1"),
        None,
        None,
        decode_unit,
    )
    .unwrap();
    match r.access_token {
        AccessToken::Header(t) => assert_eq!(t, "token-1"),
        other => panic!("wrong source: {:?}", other),
    }
}

#[test]
fn form_missing_required_fields_is_malformed() {
    let r = UserAuthorization::<Payload>::from_request(
        None,
        Some(FORM),
        Some("unrelated=x"),
        decode_payload,
    );
    match r {
        Err(UserAuthorizationError::BadForm(d)) => assert_eq!(d, "missing field foo"),
        other => panic!("expected a malformed form: {:?}", other),
    }
}

#[test]
fn non_form_content_type_counts_as_no_form() {
    let r = UserAuthorization::<Payload>::from_request(
        Some("Bearer abc123"),
        Some("application/json"),
        Some("{\"foo\":\"bar\"}"),
        decode_payload,
    )
    .unwrap();
    assert!(matches!(r.access_token, AccessToken::Header(_)));
    assert!(r.form.is_none());
}

#[test]
fn content_type_parameters_are_ignored() {
    let r = UserAuthorization::<Payload>::from_request(
        None,
        Some("application/x-www-form-urlencoded; charset=utf-8"),
        Some("foo=bar"),
        decode_payload,
    )
    .unwrap();
    assert_eq!(r.form, Some(Payload { foo: String::from("bar") }));
}

#[test]
fn form_decoding_handles_percent_and_plus() {
    let r = UserAuthorization::<Payload>::from_request(
        None,
        Some(FORM),
        Some("access_token=a%2Bb&foo=x+y%21"),
        decode_payload,
    )
    .unwrap();
    match r.access_token {
        AccessToken::Form(t) => assert_eq!(t, "a+b"),
        other => panic!("wrong source: {:?}", other),
    }
    assert_eq!(r.form, Some(Payload { foo: String::from("x y!") }));
}
