//! Building RFC 6750 `WWW-Authenticate` challenges and mapping errors to
//! HTTP responses.
//!
//! A challenge value has the shape `<scheme> <param>="<value>", ...`.
//! Parameter values are emitted as quoted strings with `"` and `\` escaped;
//! a value holding any other character outside the printable ASCII range
//! cannot be quoted safely, and construction fails instead of emitting a
//! malformed header.  Parameters are emitted in a fixed order (`error`,
//! `error_description`, `scope`, `realm`) so that the encoding is
//! deterministic.

use vstd::prelude::*;
use vstd::slice::*;
use vstd::string::*;

use crate::text::{push_char, str_chars};
use crate::user_authorization::{
    classify_lookup_error, AuthorizationVerificationError, LookupError, UserAuthorizationError,
};

verus! {

/// A character that may stand in a quoted parameter value before escaping:
/// the printable ASCII range.
pub open spec fn quotable_char(c: char) -> bool {
    ' ' <= c && c <= '~'
}

/// Whether a parameter value can be quoted safely.
pub open spec fn quotable(s: Seq<char>) -> bool {
    forall|i: int| 0 <= i < s.len() ==> quotable_char(#[trigger] s[i])
}

/// The value with `"` and `\` escaped by a backslash.
pub open spec fn escaped(s: Seq<char>) -> Seq<char>
    decreases s.len(),
{
    if s.len() == 0 {
        Seq::empty()
    } else if s[0] == '"' || s[0] == '\\' {
        seq!['\\', s[0]] + escaped(s.skip(1))
    } else {
        seq![s[0]] + escaped(s.skip(1))
    }
}

/// The value as a quoted string.
pub open spec fn quoted(s: Seq<char>) -> Seq<char> {
    seq!['"'] + escaped(s) + seq!['"']
}

/// One challenge parameter, `name="value"`.
pub open spec fn param(name: Seq<char>, value: Seq<char>) -> Seq<char> {
    name + seq!['='] + quoted(value)
}

/// An error condition reported with the `Bearer` scheme.
#[derive(Debug)]
pub enum BearerError {
    /// The request is malformed or carries no credential.
    InvalidRequest,
    /// The presented token was rejected.
    InvalidToken,
    /// The token does not grant the needed scope.
    InsufficientScope { scope: Option<String> },
}

impl BearerError {
    /// The RFC 6750 error code of this condition.
    pub open spec fn spec_error_code(&self) -> Seq<char> {
        match self {
            BearerError::InvalidRequest => "invalid_request"@,
            BearerError::InvalidToken => "invalid_token"@,
            BearerError::InsufficientScope { .. } => "insufficient_scope"@,
        }
    }

    /// The scope parameter this condition carries, if any.
    pub open spec fn spec_scope(&self) -> Option<Seq<char>> {
        match self {
            BearerError::InsufficientScope { scope: Option::Some(s) } => Option::Some(s@),
            _ => Option::None,
        }
    }

    /// The RFC 6750 error code of this condition.
    pub fn error(&self) -> (r: String)
        ensures
            r@ == self.spec_error_code(),
    {
        match self {
            BearerError::InvalidRequest => String::from_str("invalid_request"),
            BearerError::InvalidToken => String::from_str("invalid_token"),
            BearerError::InsufficientScope { .. } => String::from_str("insufficient_scope"),
        }
    }
}

/// A `WWW-Authenticate` challenge: the `Basic` scheme carries a realm, the
/// `Bearer` scheme carries an error code and optional realm, description and
/// scope.
#[derive(Debug)]
pub enum WwwAuthenticate {
    Basic { realm: String },
    Bearer { realm: Option<String>, error: BearerError, error_description: Option<String> },
}

/// Whether an optional parameter value can be quoted safely.
pub open spec fn opt_quotable(v: Option<Seq<char>>) -> bool {
    match v {
        Option::Some(s) => quotable(s),
        Option::None => true,
    }
}

/// The view of an optional owned string.
pub open spec fn opt_string_view(v: Option<String>) -> Option<Seq<char>> {
    match v {
        Option::Some(s) => Option::Some(s@),
        Option::None => Option::None,
    }
}

/// `, name="value"` for a present optional parameter, nothing for an absent
/// one.
pub open spec fn opt_param(name: Seq<char>, value: Option<Seq<char>>) -> Seq<char> {
    match value {
        Option::Some(v) => ", "@ + param(name, v),
        Option::None => Seq::empty(),
    }
}

impl WwwAuthenticate {
    /// The encoded challenge value, or nothing when a caller-supplied
    /// parameter value cannot be quoted safely.
    pub open spec fn spec_challenge(&self) -> Option<Seq<char>> {
        match self {
            WwwAuthenticate::Basic { realm } => if quotable(realm@) {
                Option::Some("Basic "@ + param("realm"@, realm@))
            } else {
                Option::None
            },
            WwwAuthenticate::Bearer { realm, error, error_description } => if opt_quotable(
                opt_string_view(*realm),
            ) && opt_quotable(opt_string_view(*error_description)) && opt_quotable(
                error.spec_scope(),
            ) {
                Option::Some(
                    "Bearer "@ + param("error"@, error.spec_error_code()) + opt_param(
                        "error_description"@,
                        opt_string_view(*error_description),
                    ) + opt_param("scope"@, error.spec_scope()) + opt_param(
                        "realm"@,
                        opt_string_view(*realm),
                    ),
                )
            } else {
                Option::None
            },
        }
    }
}

fn quotable_char_exec(c: char) -> (r: bool)
    ensures
        r == quotable_char(c),
{
    let u = c as u32;
    ' ' as u32 <= u && u <= '~' as u32
}

/// Escapes the characters of `v`, or fails on one that cannot stand in a
/// quoted value.
fn escape_chars(v: &[char]) -> (r: Option<String>)
    ensures
        match r {
            Option::Some(s) => quotable(v@) && s@ == escaped(v@),
            Option::None => !quotable(v@),
        },
    decreases v@.len(),
{
    if v.len() == 0 {
        let r = String::new();
        proof {
            assert(r@ =~= escaped(v@));
        }
        return Some(r);
    }
    let c = *slice_index_get(v, 0);
    if !quotable_char_exec(c) {
        return None;
    }
    let rest = escape_chars(slice_subrange(v, 1, v.len()));
    proof {
        assert(v@.subrange(1, v@.len() as int) =~= v@.skip(1));
    }
    match rest {
        None => {
            proof {
                let j = choose|j: int| 0 <= j < v@.skip(1).len() && !quotable_char(v@.skip(1)[j]);
                assert(v@[j + 1] == v@.skip(1)[j]);
            }
            None
        },
        Some(tail) => {
            let mut r = String::new();
            if c == '"' || c == '\\' {
                push_char(&mut r, '\\');
            }
            push_char(&mut r, c);
            r.append(tail.as_str());
            proof {
                assert(r@ =~= escaped(v@));
                assert forall|i: int| 0 <= i < v@.len() implies quotable_char(#[trigger] v@[i]) by {
                    if i > 0 {
                        assert(v@[i] == v@.skip(1)[i - 1]);
                    }
                }
            }
            Some(r)
        },
    }
}

/// Appends `name="value"` to `out`, escaping the value; leaves `out` as it
/// was when the value cannot be quoted.
fn append_param(out: &mut String, name: &str, value: &str) -> (ok: bool)
    ensures
        ok ==> quotable(value@) && final(out)@ == old(out)@ + param(name@, value@),
        !ok ==> !quotable(value@) && final(out)@ == old(out)@,
{
    let chars = str_chars(value);
    match escape_chars(chars.as_slice()) {
        None => false,
        Some(esc) => {
            out.append(name);
            push_char(out, '=');
            push_char(out, '"');
            out.append(esc.as_str());
            push_char(out, '"');
            proof {
                assert(out@ =~= old(out)@ + param(name@, value@));
            }
            true
        },
    }
}

impl WwwAuthenticate {
    /// Encodes the challenge, or fails when a caller-supplied parameter
    /// value cannot be quoted safely.
    pub fn encode(&self) -> (r: Option<String>)
        ensures
            match r {
                Option::Some(s) => self.spec_challenge() == Option::Some(s@),
                Option::None => self.spec_challenge() is None,
            },
    {
        match self {
            WwwAuthenticate::Basic { realm } => {
                let mut out = String::from_str("Basic ");
                if !append_param(&mut out, "realm", realm.as_str()) {
                    return None;
                }
                Some(out)
            },
            WwwAuthenticate::Bearer { realm, error, error_description } => {
                let mut out = String::from_str("Bearer ");
                let code = error.error();
                proof {
                    lemma_error_codes_quotable();
                }
                let ok = append_param(&mut out, "error", code.as_str());
                assert(ok);
                if let Some(d) = error_description {
                    out.append(", ");
                    if !append_param(&mut out, "error_description", d.as_str()) {
                        return None;
                    }
                }
                if let BearerError::InsufficientScope { scope: Some(sv) } = error {
                    out.append(", ");
                    if !append_param(&mut out, "scope", sv.as_str()) {
                        return None;
                    }
                }
                if let Some(rv) = realm {
                    out.append(", ");
                    if !append_param(&mut out, "realm", rv.as_str()) {
                        return None;
                    }
                }
                proof {
                    assert(out@ =~= "Bearer "@ + param("error"@, error.spec_error_code())
                        + opt_param("error_description"@, opt_string_view(*error_description))
                        + opt_param("scope"@, error.spec_scope()) + opt_param(
                        "realm"@,
                        opt_string_view(*realm),
                    ));
                }
                Some(out)
            },
        }
    }
}

/// The error codes this crate emits are printable ASCII, so quoting them
/// never fails.
pub proof fn lemma_error_codes_quotable()
    ensures
        quotable("invalid_request"@),
        quotable("invalid_token"@),
        quotable("insufficient_scope"@),
{
    reveal_strlit("invalid_request");
    reveal_strlit("invalid_token");
    reveal_strlit("insufficient_scope");
}

proof fn lemma_quotable_concat(a: Seq<char>, b: Seq<char>)
    requires
        quotable(a),
        quotable(b),
    ensures
        quotable(a + b),
{
    assert forall|i: int| 0 <= i < (a + b).len() implies quotable_char(#[trigger] (a + b)[i]) by {
        if i < a.len() {
            assert((a + b)[i] == a[i]);
        } else {
            assert((a + b)[i] == b[i - a.len()]);
        }
    }
}

proof fn lemma_escaped_quotable(s: Seq<char>)
    requires
        quotable(s),
    ensures
        quotable(escaped(s)),
    decreases s.len(),
{
    if s.len() > 0 {
        assert forall|i: int| 0 <= i < s.skip(1).len() implies quotable_char(
            #[trigger] s.skip(1)[i],
        ) by {
            assert(s.skip(1)[i] == s[i + 1]);
        }
        lemma_escaped_quotable(s.skip(1));
        let head: Seq<char> = if s[0] == '"' || s[0] == '\\' {
            seq!['\\', s[0]]
        } else {
            seq![s[0]]
        };
        assert(quotable(head));
        lemma_quotable_concat(head, escaped(s.skip(1)));
    }
}

proof fn lemma_param_quotable(name: Seq<char>, value: Seq<char>)
    requires
        quotable(name),
        quotable(value),
    ensures
        quotable(param(name, value)),
{
    lemma_escaped_quotable(value);
    assert(quotable(seq!['=']));
    assert(quotable(seq!['"']));
    lemma_quotable_concat(seq!['"'], escaped(value));
    lemma_quotable_concat(seq!['"'] + escaped(value), seq!['"']);
    assert(quoted(value) =~= (seq!['"'] + escaped(value)) + seq!['"']);
    lemma_quotable_concat(name, seq!['=']);
    lemma_quotable_concat(name + seq!['='], quoted(value));
    assert(param(name, value) =~= (name + seq!['=']) + quoted(value));
}

proof fn lemma_opt_param_quotable(name: Seq<char>, value: Option<Seq<char>>)
    requires
        quotable(name),
        opt_quotable(value),
    ensures
        quotable(opt_param(name, value)),
{
    if value is Some {
        reveal_strlit(", ");
        lemma_param_quotable(name, value->0);
        lemma_quotable_concat(", "@, param(name, value->0));
    }
}

/// Every challenge this crate can encode is printable ASCII throughout.
pub proof fn lemma_challenge_quotable(w: WwwAuthenticate)
    requires
        w.spec_challenge() is Some,
    ensures
        quotable(w.spec_challenge()->0),
{
    reveal_strlit("Basic ");
    reveal_strlit("Bearer ");
    reveal_strlit("realm");
    reveal_strlit("error");
    reveal_strlit("error_description");
    reveal_strlit("scope");
    lemma_error_codes_quotable();
    match w {
        WwwAuthenticate::Basic { realm } => {
            lemma_param_quotable("realm"@, realm@);
            lemma_quotable_concat("Basic "@, param("realm"@, realm@));
        },
        WwwAuthenticate::Bearer { realm, error, error_description } => {
            lemma_param_quotable("error"@, error.spec_error_code());
            lemma_quotable_concat("Bearer "@, param("error"@, error.spec_error_code()));
            lemma_opt_param_quotable("error_description"@, opt_string_view(error_description));
            lemma_quotable_concat(
                "Bearer "@ + param("error"@, error.spec_error_code()),
                opt_param("error_description"@, opt_string_view(error_description)),
            );
            lemma_opt_param_quotable("scope"@, error.spec_scope());
            lemma_quotable_concat(
                "Bearer "@ + param("error"@, error.spec_error_code()) + opt_param(
                    "error_description"@,
                    opt_string_view(error_description),
                ),
                opt_param("scope"@, error.spec_scope()),
            );
            lemma_opt_param_quotable("realm"@, opt_string_view(realm));
            lemma_quotable_concat(
                "Bearer "@ + param("error"@, error.spec_error_code()) + opt_param(
                    "error_description"@,
                    opt_string_view(error_description),
                ) + opt_param("scope"@, error.spec_scope()),
                opt_param("realm"@, opt_string_view(realm)),
            );
        },
    }
}

/// A character that `http` accepts in a header value: its byte encoding is
/// 32..=255 except 127 (DEL), or horizontal tab.
pub open spec fn valid_header_char(c: char) -> bool {
    c == '\t' || (' ' <= c && c != '\u{7f}')
}

#[verifier::external_type_specification]
#[verifier::external_body]
pub struct ExHeaderValue(http::HeaderValue);

/// Relies on http's `HeaderValue::from_str`: it accepts exactly the strings
/// whose bytes are all in 32..=255 except 127 (DEL), or horizontal tab,
/// which in character terms is `valid_header_char` of every character.
#[verifier::external_body]
fn header_value_from_str(s: &str) -> (r: Option<http::HeaderValue>)
    ensures
        r is Some <==> (forall|i: int|
            0 <= i < s@.len() ==> valid_header_char(#[trigger] s@[i])),
{
    match http::HeaderValue::from_str(s) {
        Ok(v) => Some(v),
        Err(_) => None,
    }
}

impl WwwAuthenticate {
    /// The challenge as a validated HTTP header value: present exactly when
    /// the challenge itself can be encoded, since an encodable challenge is
    /// printable ASCII throughout.
    pub fn header_value(&self) -> (r: Option<http::HeaderValue>)
        ensures
            r is Some <==> self.spec_challenge() is Some,
    {
        match self.encode() {
            None => None,
            Some(s) => {
                proof {
                    lemma_challenge_quotable(*self);
                    assert forall|i: int| 0 <= i < s@.len() implies valid_header_char(
                        #[trigger] s@[i],
                    ) by {
                        assert(quotable_char(s@[i]));
                    }
                }
                let hv = header_value_from_str(s.as_str());
                proof {
                    assert(hv is Some);
                }
                hv
            },
        }
    }
}

/// An HTTP response carrying a failure of this subsystem: a status code, an
/// optional `WWW-Authenticate` challenge, and a body.
#[derive(Debug)]
pub struct ErrorResponse {
    pub status: u16,
    pub www_authenticate: Option<String>,
    pub body: String,
}

/// The challenge value carrying just an error code: `Bearer error="<code>"`.
pub open spec fn spec_error_challenge(code: Seq<char>) -> Seq<char> {
    "Bearer "@ + param("error"@, code)
}

/// Builds the `Bearer` challenge response shared by every client-correctable
/// failure: status 400, a challenge carrying the error code, an empty body.
fn bearer_error_response(error: BearerError) -> (r: ErrorResponse)
    requires
        error.spec_scope() is None,
    ensures
        r.status == 400,
        r.www_authenticate matches Option::Some(h) && h@ == spec_error_challenge(
            error.spec_error_code(),
        ),
        r.body@ == Seq::<char>::empty(),
{
    let ghost code = error.spec_error_code();
    let w = WwwAuthenticate::Bearer { realm: None, error, error_description: None };
    proof {
        assert(w.spec_challenge() matches Option::Some(c) && c == spec_error_challenge(code)) by {
            assert("Bearer "@ + param("error"@, code) + opt_param(
                "error_description"@,
                Option::None,
            ) + opt_param("scope"@, Option::None) + opt_param("realm"@, Option::None)
                =~= spec_error_challenge(code));
        }
    }
    match w.encode() {
        Some(h) => ErrorResponse { status: 400, www_authenticate: Some(h), body: String::new() },
        None => {
            proof {
                assert(false);
            }
            ErrorResponse { status: 400, www_authenticate: None, body: String::new() }
        },
    }
}

impl UserAuthorizationError {
    /// The HTTP response for this extraction failure: every malformed or
    /// ambiguous request is answered 400 with an `invalid_request`
    /// challenge, an internal failure is answered 500 with no challenge and
    /// the failure's diagnostic as the body.
    pub fn into_response(self) -> (r: ErrorResponse)
        ensures
            match self {
                UserAuthorizationError::InternalError(m) => r.status == 500
                    && r.www_authenticate is None && r.body@ == m@,
                _ => {
                    &&& r.status == 400
                    &&& r.body@ == Seq::<char>::empty()
                    &&& (r.www_authenticate matches Option::Some(h) && h@
                        == spec_error_challenge("invalid_request"@))
                },
            },
    {
        match self {
            UserAuthorizationError::BadForm(_)
            | UserAuthorizationError::InvalidHeader
            | UserAuthorizationError::TokenInFormAndHeader => bearer_error_response(
                BearerError::InvalidRequest,
            ),
            UserAuthorizationError::InternalError(m) => ErrorResponse {
                status: 500,
                www_authenticate: None,
                body: m,
            },
        }
    }
}

impl AuthorizationVerificationError {
    /// The HTTP response for this verification failure: a missing credential
    /// or missing form is answered 400 with an `invalid_request` challenge,
    /// a rejected token 400 with an `invalid_token` challenge, and an
    /// internal failure 500 with no challenge and the failure's diagnostic
    /// as the body.
    pub fn into_response(self) -> (r: ErrorResponse)
        ensures
            match self {
                AuthorizationVerificationError::InternalError(m) => r.status == 500
                    && r.www_authenticate is None && r.body@ == m@,
                AuthorizationVerificationError::InvalidToken => {
                    &&& r.status == 400
                    &&& r.body@ == Seq::<char>::empty()
                    &&& (r.www_authenticate matches Option::Some(h) && h@
                        == spec_error_challenge("invalid_token"@))
                },
                _ => {
                    &&& r.status == 400
                    &&& r.body@ == Seq::<char>::empty()
                    &&& (r.www_authenticate matches Option::Some(h) && h@
                        == spec_error_challenge("invalid_request"@))
                },
            },
    {
        match self {
            AuthorizationVerificationError::MissingForm
            | AuthorizationVerificationError::MissingToken => bearer_error_response(
                BearerError::InvalidRequest,
            ),
            AuthorizationVerificationError::InvalidToken => bearer_error_response(
                BearerError::InvalidToken,
            ),
            AuthorizationVerificationError::InternalError(m) => ErrorResponse {
                status: 500,
                www_authenticate: None,
                body: m,
            },
        }
    }
}

proof fn lemma_escaped_plain(s: Seq<char>)
    requires
        forall|i: int| 0 <= i < s.len() ==> #[trigger] s[i] != '"' && s[i] != '\\',
    ensures
        escaped(s) == s,
    decreases s.len(),
{
    if s.len() > 0 {
        assert forall|i: int| 0 <= i < s.skip(1).len() implies #[trigger] s.skip(1)[i] != '"'
            && s.skip(1)[i] != '\\' by {
            assert(s.skip(1)[i] == s[i + 1]);
        }
        lemma_escaped_plain(s.skip(1));
        assert(escaped(s) =~= s);
    }
}

/// Challenge fidelity: the challenge emitted for a rejected token is exactly
/// `Bearer error="invalid_token"`, and the challenge emitted for a malformed
/// or credential-less request is exactly `Bearer error="invalid_request"`.
pub proof fn lemma_challenge_fidelity()
    ensures
        spec_error_challenge("invalid_token"@) == "Bearer error=\"invalid_token\""@,
        spec_error_challenge("invalid_request"@) == "Bearer error=\"invalid_request\""@,
{
    reveal_strlit("Bearer ");
    reveal_strlit("error");
    reveal_strlit("invalid_token");
    reveal_strlit("invalid_request");
    reveal_strlit("Bearer error=\"invalid_token\"");
    reveal_strlit("Bearer error=\"invalid_request\"");
    lemma_escaped_plain("invalid_token"@);
    lemma_escaped_plain("invalid_request"@);
    assert(spec_error_challenge("invalid_token"@) =~= "Bearer error=\"invalid_token\""@);
    assert(spec_error_challenge("invalid_request"@) =~= "Bearer error=\"invalid_request\""@);
}

/// Lookup classification: a store failure whose not-found predicate holds is
/// classified as a rejected token, whose response is 400 with the
/// `invalid_token` challenge; any other store failure is classified as
/// internal, whose response is 500 with no challenge and the store's
/// diagnostic as the body.
pub proof fn lemma_lookup_classification(e: LookupError)
    ensures
        e.not_found ==> classify_lookup_error(e) == AuthorizationVerificationError::InvalidToken,
        !e.not_found ==> classify_lookup_error(e) == AuthorizationVerificationError::InternalError(
            e.message,
        ),
{
}

} // verus!

