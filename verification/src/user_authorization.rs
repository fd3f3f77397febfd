//! Locating a bearer access token in an HTTP request and verifying it against
//! the answer of the token store.
//!
//! Extraction (`UserAuthorization::from_request`) is synchronous and touches
//! nothing but the request: it reads the `Authorization` header, reads an
//! optional form-encoded body carrying an `access_token` field next to a
//! caller-defined payload, and rejects ambiguous credential placement.
//! Verification (`protected`, `protected_form`) consumes the extracted value
//! together with the token store's answer for the located token; the one
//! lookup itself is the caller's I/O step.

use vstd::prelude::*;
use vstd::slice::*;
use vstd::string::*;

use crate::form::{
    pairs_view, parse_form, payload_fields, spec_form_token, spec_payload_fields, token_field,
};
use crate::text::{find_char, find_in, lemma_find_char, str_chars};

verus! {

/// The session of an authenticated principal, as the token store reports it.
#[derive(Debug, Clone, Copy, PartialEq, Eq, Structural)]
pub struct Session {
    pub id: u64,
}

/// The stored record of an active access token.
#[derive(Debug, Clone, Copy, PartialEq, Eq, Structural)]
pub struct AccessTokenRecord {
    pub id: u64,
}

/// A failure reported by the token store's lookup.
#[derive(Debug)]
pub struct LookupError {
    /// The token was not found, or is inactive or expired.
    pub not_found: bool,
    /// Diagnostic text for any other failure.
    pub message: String,
}

impl LookupError {
    /// Whether this failure means the credential itself is not valid.
    pub fn not_found(&self) -> (r: bool)
        ensures
            r == self.not_found,
    {
        self.not_found
    }
}

/// A failure of the extraction step.
#[derive(Debug)]
pub enum UserAuthorizationError {
    /// The `Authorization` header is present but not valid bearer syntax.
    InvalidHeader,
    /// A token was supplied both in the header and in the form.
    TokenInFormAndHeader,
    /// A form body was supplied but its fields do not fit the caller's
    /// payload schema; the payload carries the decoder's diagnostic.
    BadForm(String),
    /// Any other failure.
    InternalError(String),
}

/// A failure of the verification step.
#[derive(Debug)]
pub enum AuthorizationVerificationError {
    /// No token was supplied anywhere in the request.
    MissingToken,
    /// The token store rejected the supplied token.
    InvalidToken,
    /// The caller requires a form payload and none was decoded.
    MissingForm,
    /// Any other failure; the payload carries its diagnostic.
    InternalError(String),
}

/// How a store failure is classified: not-found failures mean the credential
/// is not valid; everything else is internal.
pub open spec fn classify_lookup_error(e: LookupError) -> AuthorizationVerificationError {
    if e.not_found {
        AuthorizationVerificationError::InvalidToken
    } else {
        AuthorizationVerificationError::InternalError(e.message)
    }
}

impl From<LookupError> for AuthorizationVerificationError {
    fn from(e: LookupError) -> (r: Self) {
        if e.not_found {
            AuthorizationVerificationError::InvalidToken
        } else {
            AuthorizationVerificationError::InternalError(e.message)
        }
    }
}

impl vstd::std_specs::convert::FromSpecImpl<LookupError> for AuthorizationVerificationError {
    open spec fn obeys_from_spec() -> bool {
        true
    }

    open spec fn from_spec(e: LookupError) -> Self {
        classify_lookup_error(e)
    }
}

/// Where the request supplied its token, together with the token itself.
#[derive(Debug)]
pub enum AccessToken {
    /// The token came from the form body's `access_token` field.
    Form(String),
    /// The token came from the `Authorization` header.
    Header(String),
    /// No token was supplied.
    Missing,
}

impl AccessToken {
    /// The supplied token, wherever it came from.
    pub open spec fn spec_token(&self) -> Option<Seq<char>> {
        match self {
            AccessToken::Form(t) => Option::Some(t@),
            AccessToken::Header(t) => Option::Some(t@),
            AccessToken::Missing => Option::None,
        }
    }

    /// The supplied token, wherever it came from.
    pub fn token(&self) -> (r: Option<&String>)
        ensures
            match r {
                Option::Some(t) => self.spec_token() == Option::Some(t@),
                Option::None => self.spec_token() is None,
            },
    {
        match self {
            AccessToken::Form(t) => Some(t),
            AccessToken::Header(t) => Some(t),
            AccessToken::Missing => None,
        }
    }

    /// Resolves the located token against the store's answer: a missing token
    /// never reaches the store, a store success is returned as is, and a
    /// store failure is classified.
    pub fn fetch(&self, lookup: Option<Result<(AccessTokenRecord, Session), LookupError>>) -> (r:
        Result<(AccessTokenRecord, Session), AuthorizationVerificationError>)
        requires
            self.spec_token() is Some ==> lookup is Some,
        ensures
            fetch_post(*self, lookup, r),
    {
        match self {
            AccessToken::Missing => Err(AuthorizationVerificationError::MissingToken),
            _ => match lookup {
                Some(Ok(pair)) => Ok(pair),
                Some(Err(e)) => Err(AuthorizationVerificationError::from(e)),
                None => Err(AuthorizationVerificationError::MissingToken),
            },
        }
    }
}

/// What `fetch` returns for a given credential source and store answer.
pub open spec fn fetch_post(
    src: AccessToken,
    lookup: Option<Result<(AccessTokenRecord, Session), LookupError>>,
    r: Result<(AccessTokenRecord, Session), AuthorizationVerificationError>,
) -> bool {
    match src.spec_token() {
        Option::None => r == Result::<
            (AccessTokenRecord, Session),
            AuthorizationVerificationError,
        >::Err(AuthorizationVerificationError::MissingToken),
        Option::Some(_) => lookup is Some && (match lookup->0 {
            Result::Ok(pair) => r == Result::<
                (AccessTokenRecord, Session),
                AuthorizationVerificationError,
            >::Ok(pair),
            Result::Err(e) => r == Result::<
                (AccessTokenRecord, Session),
                AuthorizationVerificationError,
            >::Err(classify_lookup_error(e)),
        }),
    }
}

/// A character allowed in a bearer token: alphanumerics, `-._~+/`, and the
/// padding character `=`.
pub open spec fn is_token_char(c: char) -> bool {
    ('A' <= c && c <= 'Z') || ('a' <= c && c <= 'z') || ('0' <= c && c <= '9') || c == '-' || c
        == '.' || c == '_' || c == '~' || c == '+' || c == '/' || c == '='
}

/// Whether the header value starts with the bearer scheme, case-insensitively,
/// followed by one space.
pub open spec fn bearer_scheme_ok(h: Seq<char>) -> bool {
    h.len() >= 7 && (h[0] == 'B' || h[0] == 'b') && (h[1] == 'E' || h[1] == 'e') && (h[2] == 'A'
        || h[2] == 'a') && (h[3] == 'R' || h[3] == 'r') && (h[4] == 'E' || h[4] == 'e') && (h[5]
        == 'R' || h[5] == 'r') && h[6] == ' '
}

/// The token of a syntactically valid `Authorization: Bearer <token>` value,
/// or nothing when the value does not follow that shape.
pub open spec fn spec_bearer_token(h: Seq<char>) -> Option<Seq<char>> {
    if bearer_scheme_ok(h) && h.len() > 7 && (forall|i: int|
        7 <= i < h.len() ==> is_token_char(h[i])) {
        Option::Some(h.skip(7))
    } else {
        Option::None
    }
}

fn is_token_char_exec(c: char) -> (r: bool)
    ensures
        r == is_token_char(c),
{
    let u = c as u32;
    ('A' as u32 <= u && u <= 'Z' as u32) || ('a' as u32 <= u && u <= 'z' as u32) || ('0' as u32
        <= u && u <= '9' as u32) || c == '-' || c == '.' || c == '_' || c == '~' || c == '+' || c
        == '/' || c == '='
}

/// Parses an `Authorization` header value as a bearer credential.
pub fn parse_bearer(h: &str) -> (r: Option<String>)
    ensures
        match r {
            Option::Some(t) => spec_bearer_token(h@) == Option::Some(t@),
            Option::None => spec_bearer_token(h@) is None,
        },
{
    let v = str_chars(h);
    let n = v.len();
    if n < 8 {
        return None;
    }
    let s = v.as_slice();
    let c0 = *slice_index_get(s, 0);
    let c1 = *slice_index_get(s, 1);
    let c2 = *slice_index_get(s, 2);
    let c3 = *slice_index_get(s, 3);
    let c4 = *slice_index_get(s, 4);
    let c5 = *slice_index_get(s, 5);
    let c6 = *slice_index_get(s, 6);
    if !((c0 == 'B' || c0 == 'b') && (c1 == 'E' || c1 == 'e') && (c2 == 'A' || c2 == 'a') && (c3
        == 'R' || c3 == 'r') && (c4 == 'E' || c4 == 'e') && (c5 == 'R' || c5 == 'r') && c6
        == ' ') {
        return None;
    }
    let mut i: usize = 7;
    while i < n
        invariant
            7 <= i <= n,
            n == h@.len(),
            v@ == h@,
            n == v@.len(),
            forall|j: int| 7 <= j < i ==> is_token_char(h@[j]),
        decreases n - i,
    {
        if !is_token_char_exec(v[i]) {
            return None;
        }
        i += 1;
    }
    let tail = crate::text::chars_string(slice_subrange(v.as_slice(), 7, n));
    proof {
        assert(tail@ =~= h@.skip(7));
    }
    Some(tail)
}

/// ASCII-lowercasing of one character.
pub open spec fn lower_char(c: char) -> char {
    if 'A' <= c && c <= 'Z' {
        ((c as int) + 32) as char
    } else {
        c
    }
}

/// The media type of a `Content-Type` value: everything before its first
/// `;`, ASCII-lowercased.
pub open spec fn mime_essence(ct: Seq<char>) -> Seq<char> {
    match find_char(ct, ';') {
        Option::None => ct,
        Option::Some(i) => ct.take(i),
    }
}

/// Whether a `Content-Type` value names the form encoding.
pub open spec fn is_form_content_type(ct: Seq<char>) -> bool {
    let ess = mime_essence(ct);
    ess.len() == "application/x-www-form-urlencoded"@.len() && (forall|i: int|
        0 <= i < ess.len() ==> #[trigger] lower_char(ess[i])
            == "application/x-www-form-urlencoded"@[i])
}

fn lower_char_exec(c: char) -> (r: char)
    ensures
        r == lower_char(c),
{
    let u = c as u32;
    if 'A' as u32 <= u && u <= 'Z' as u32 {
        (((c as u8) + 32) as char)
    } else {
        c
    }
}

/// Decides whether a `Content-Type` value names the form encoding.
pub fn form_content_type(ct: &str) -> (r: bool)
    ensures
        r == is_form_content_type(ct@),
{
    let v = str_chars(ct);
    let n = v.len();
    let essence_end: usize = match find_in(v.as_slice(), ';') {
        Some(i) => {
            proof {
                lemma_find_char(v@, ';');
            }
            i
        },
        None => n,
    };
    let ghost ess = mime_essence(ct@);
    proof {
        assert(ess =~= v@.take(essence_end as int));
    }
    let target = "application/x-www-form-urlencoded";
    let tn = target.unicode_len();
    proof {
        reveal_strlit("application/x-www-form-urlencoded");
    }
    if essence_end != tn {
        proof {
            assert(ess.len() == essence_end as int);
            assert("application/x-www-form-urlencoded"@.len() == tn as int);
            assert(!is_form_content_type(ct@));
        }
        return false;
    }
    let mut i: usize = 0;
    #[verifier::loop_isolation(false)]
    while i < tn
        invariant
            i <= tn,
            tn == target@.len(),
            essence_end == tn,
            essence_end <= n,
            n == v@.len(),
            v@ == ct@,
            ess =~= v@.take(essence_end as int),
            target@ =~= "application/x-www-form-urlencoded"@,
            forall|j: int| 0 <= j < i ==> lower_char(ess[j]) == target@[j],
        decreases tn - i,
    {
        let c = lower_char_exec(v[i]);
        let t = target.get_char(i);
        if c != t {
            proof {
                assert(lower_char(ess[i as int]) != "application/x-www-form-urlencoded"@[i as int]);
                assert(!is_form_content_type(ct@)) by {
                    if is_form_content_type(ct@) {
                        assert(lower_char(mime_essence(ct@)[i as int])
                            == "application/x-www-form-urlencoded"@[i as int]);
                    }
                }
            }
            return false;
        }
        i += 1;
    }
    proof {
        assert(is_form_content_type(ct@));
    }
    true
}

/// A bearer credential located in a request, together with the decoded form
/// payload, if a form was present.
#[derive(Debug)]
pub struct UserAuthorization<F> {
    pub access_token: AccessToken,
    pub form: Option<F>,
}

/// The view of an optional string input.
pub open spec fn opt_view(s: Option<&str>) -> Option<Seq<char>> {
    match s {
        Option::Some(x) => Option::Some(x@),
        Option::None => Option::None,
    }
}

/// The header side of extraction: no header means no token, a valid bearer
/// header means its token, anything else is a malformed header.
pub open spec fn spec_header_result(h: Option<Seq<char>>) -> Result<Option<Seq<char>>, ()> {
    match h {
        Option::None => Result::Ok(Option::None),
        Option::Some(s) => match spec_bearer_token(s) {
            Option::Some(t) => Result::Ok(Option::Some(t)),
            Option::None => Result::Err(()),
        },
    }
}

/// Whether the request supplied a form body: a body together with a
/// form-encoded content type.
pub open spec fn spec_has_form(ct: Option<Seq<char>>, body: Option<Seq<char>>) -> bool {
    body is Some && ct is Some && is_form_content_type(ct->0)
}

/// How the chosen credential source relates to the tokens the header and the
/// form supplied: both present is never represented, one present selects it,
/// neither means the credential is missing.
pub open spec fn source_matches(
    src: AccessToken,
    ht: Option<Seq<char>>,
    ft: Option<Seq<char>>,
) -> bool {
    match (ht, ft) {
        (Option::Some(_), Option::Some(_)) => false,
        (Option::Some(t), Option::None) => src matches AccessToken::Header(s) && s@ == t,
        (Option::None, Option::Some(t)) => src matches AccessToken::Form(s) && s@ == t,
        (Option::None, Option::None) => src matches AccessToken::Missing,
    }
}

/// Whether the payload decoder can return this payload for fields viewing as
/// `pf`.
pub open spec fn decode_ok_witness<F, D: FnOnce(Vec<(String, String)>) -> Result<F, String>>(
    decode: D,
    pf: Seq<(Seq<char>, Seq<char>)>,
    f: F,
) -> bool {
    exists|fv: Vec<(String, String)>|
        pairs_view(fv@) == pf && #[trigger] call_ensures(decode, (fv,), Result::<F, String>::Ok(f))
}

/// Whether the payload decoder can fail with this diagnostic for fields
/// viewing as `pf`.
pub open spec fn decode_err_witness<F, D: FnOnce(Vec<(String, String)>) -> Result<F, String>>(
    decode: D,
    pf: Seq<(Seq<char>, Seq<char>)>,
    d: String,
) -> bool {
    exists|fv: Vec<(String, String)>|
        pairs_view(fv@) == pf && #[trigger] call_ensures(
            decode,
            (fv,),
            Result::<F, String>::Err(d),
        )
}

/// What extraction returns, for every combination of header, content type,
/// body and payload-decoder outcome.
pub open spec fn extraction_post<F, D: FnOnce(Vec<(String, String)>) -> Result<F, String>>(
    hdr: Option<Seq<char>>,
    ct: Option<Seq<char>>,
    body: Option<Seq<char>>,
    decode: D,
    r: Result<UserAuthorization<F>, UserAuthorizationError>,
) -> bool {
    let ht = spec_header_result(hdr);
    let hf = spec_has_form(ct, body);
    let ftok = spec_form_token(body->0);
    let pf = spec_payload_fields(body->0);
    &&& (ht is Err <==> r matches Result::Err(UserAuthorizationError::InvalidHeader))
    &&& (ht is Ok && !hf ==> (r matches Result::Ok(ua) && ua.form is None && source_matches(
        ua.access_token,
        ht->Ok_0,
        Option::None,
    )))
    &&& (ht is Ok && hf ==> match r {
        Result::Ok(ua) => ua.form matches Option::Some(f) && decode_ok_witness(decode, pf, f)
            && source_matches(ua.access_token, ht->Ok_0, ftok),
        Result::Err(e) => match e {
            UserAuthorizationError::BadForm(d) => decode_err_witness(decode, pf, d),
            UserAuthorizationError::TokenInFormAndHeader => ht->Ok_0 is Some && ftok is Some,
            UserAuthorizationError::InvalidHeader => false,
            UserAuthorizationError::InternalError(_) => false,
        },
    })
    &&& (ht matches Result::Ok(t) && t is Some && hf && ftok is Some ==> !(r is Ok))
}

/// Mutual exclusion: a request that carries a token both in the header and
/// in the form never extracts a value, whatever the payload decoder does.
pub proof fn lemma_mutual_exclusion<F, D: FnOnce(Vec<(String, String)>) -> Result<F, String>>(
    hdr: Option<Seq<char>>,
    ct: Option<Seq<char>>,
    body: Option<Seq<char>>,
    decode: D,
    r: Result<UserAuthorization<F>, UserAuthorizationError>,
)
    requires
        extraction_post(hdr, ct, body, decode, r),
        spec_header_result(hdr) matches Result::Ok(t) && t is Some,
        spec_has_form(ct, body),
        spec_form_token(body->0) is Some,
    ensures
        !(r is Ok),
{
}

/// Payload independence: when the header is well formed, the payload decoder
/// cannot fail on the form's non-token fields, and the token does not arrive
/// in both places at once, extraction succeeds and carries a decoded
/// payload — whichever side the token itself came from.
pub proof fn lemma_payload_independence<
    F,
    D: FnOnce(Vec<(String, String)>) -> Result<F, String>,
>(
    hdr: Option<Seq<char>>,
    ct: Option<Seq<char>>,
    body: Option<Seq<char>>,
    decode: D,
    r: Result<UserAuthorization<F>, UserAuthorizationError>,
)
    requires
        extraction_post(hdr, ct, body, decode, r),
        spec_header_result(hdr) is Ok,
        spec_has_form(ct, body),
        !(spec_header_result(hdr)->Ok_0 is Some && spec_form_token(body->0) is Some),
        forall|d: String| !decode_err_witness(decode, spec_payload_fields(body->0), d),
    ensures
        r matches Result::Ok(ua) && ua.form is Some,
{
}

proof fn lemma_extraction_post_bad_form<F, D: FnOnce(Vec<(String, String)>) -> Result<F, String>>(
    hdr: Option<Seq<char>>,
    ct: Option<Seq<char>>,
    body: Option<Seq<char>>,
    decode: D,
    d: String,
    pfv: Vec<(String, String)>,
)
    requires
        spec_header_result(hdr) is Ok,
        spec_has_form(ct, body),
        pairs_view(pfv@) == spec_payload_fields(body->0),
        call_ensures(decode, (pfv,), Result::<F, String>::Err(d)),
    ensures
        extraction_post(
            hdr,
            ct,
            body,
            decode,
            Result::<UserAuthorization<F>, UserAuthorizationError>::Err(
                UserAuthorizationError::BadForm(d),
            ),
        ),
{
    assert(decode_err_witness(decode, spec_payload_fields(body->0), d)) by {
        assert(pairs_view(pfv@) == spec_payload_fields(body->0) && call_ensures(
            decode,
            (pfv,),
            Result::<F, String>::Err(d),
        ));
    }
}

impl<F> UserAuthorization<F> {
    /// Locates the request's bearer credential and decodes the caller's form
    /// payload.
    ///
    /// The header is read first: a malformed `Authorization` value rejects
    /// the request.  A body whose content type is not form-encoded counts as
    /// no form.  When a form is present, its non-`access_token` fields are
    /// handed to `decode`; a decoding failure rejects the request as a
    /// malformed form.  A token in both the header and the form is a
    /// conflict and rejects the request; otherwise whichever token is
    /// present is selected.
    #[verifier::rlimit(100)]
    pub fn from_request<D>(
        authorization: Option<&str>,
        content_type: Option<&str>,
        body: Option<&str>,
        decode: D,
    ) -> (r: Result<Self, UserAuthorizationError>) where
        D: FnOnce(Vec<(String, String)>) -> Result<F, String>,

        requires
            forall|fields: Vec<(String, String)>| #[trigger] call_requires(decode, (fields,)),
        ensures
            extraction_post(
                opt_view(authorization),
                opt_view(content_type),
                opt_view(body),
                decode,
                r,
            ),
    {
        let ghost g_decode = decode;
        let token_from_header: Option<String> = match authorization {
            None => None,
            Some(h) => match parse_bearer(h) {
                Some(t) => Some(t),
                None => {
                    proof {
                        assert(extraction_post(
                            opt_view(authorization),
                            opt_view(content_type),
                            opt_view(body),
                            g_decode,
                            Result::<Self, UserAuthorizationError>::Err(
                                UserAuthorizationError::InvalidHeader,
                            ),
                        ));
                    }
                    return Err(UserAuthorizationError::InvalidHeader);
                },
            },
        };
        let mut token_from_form: Option<String> = None;
        let mut form: Option<F> = None;
        let ghost mut g_pf: Option<Vec<(String, String)>> = Option::None;
        match (content_type, body) {
            (Some(ct), Some(b)) => {
                if form_content_type(ct) {
                    let chars = str_chars(b);
                    let fields = parse_form(chars.as_slice());
                    let tok = token_field(&fields);
                    let pf = payload_fields(&fields);
                    proof {
                        g_pf = Option::Some(pf);
                        assert(pairs_view(pf@) == spec_payload_fields(b@));
                    }
                    match decode(pf) {
                        Ok(f) => {
                            token_from_form = tok;
                            form = Some(f);
                        },
                        Err(d) => {
                            proof {
                                assert(call_ensures(
                                    g_decode,
                                    (g_pf->0,),
                                    Result::<F, String>::Err(d),
                                ));
                                lemma_extraction_post_bad_form(
                                    opt_view(authorization),
                                    opt_view(content_type),
                                    opt_view(body),
                                    g_decode,
                                    d,
                                    g_pf->0,
                                );
                            }
                            return Err(UserAuthorizationError::BadForm(d));
                        },
                    }
                }
            },
            _ => {},
        }
        let access_token = match (token_from_header, token_from_form) {
            (Some(_), Some(_)) => {
                proof {
                    assert(extraction_post(
                        opt_view(authorization),
                        opt_view(content_type),
                        opt_view(body),
                        g_decode,
                        Result::<Self, UserAuthorizationError>::Err(
                            UserAuthorizationError::TokenInFormAndHeader,
                        ),
                    ));
                }
                return Err(UserAuthorizationError::TokenInFormAndHeader);
            },
            (Some(t), None) => AccessToken::Header(t),
            (None, Some(t)) => AccessToken::Form(t),
            (None, None) => AccessToken::Missing,
        };
        let result = UserAuthorization { access_token, form };
        proof {
            let ht = spec_header_result(opt_view(authorization));
            let hf = spec_has_form(opt_view(content_type), opt_view(body));
            let ftok = spec_form_token(opt_view(body)->0);
            let pf = spec_payload_fields(opt_view(body)->0);
            let r = Result::<Self, UserAuthorizationError>::Ok(result);
            assert(ht is Ok);
            if hf {
                assert(result.form is Some);
                assert(call_ensures(
                    g_decode,
                    (g_pf->0,),
                    Result::<F, String>::Ok(result.form->0),
                ));
                assert(pairs_view((g_pf->0)@) == pf);
                assert(decode_ok_witness(g_decode, pf, result.form->0));
                assert(source_matches(result.access_token, ht->Ok_0, ftok));
            } else {
                assert(result.form is None);
                assert(source_matches(result.access_token, ht->Ok_0, Option::None));
            }
            assert(extraction_post(
                opt_view(authorization),
                opt_view(content_type),
                opt_view(body),
                g_decode,
                r,
            ));
        }
        Ok(result)
    }

    /// Verifies the located credential: a missing token is rejected without
    /// touching the store, a store success yields the session, and a store
    /// failure is classified.
    pub fn protected(self, lookup: Option<Result<(AccessTokenRecord, Session), LookupError>>)
        -> (r: Result<Session, AuthorizationVerificationError>)
        requires
            self.access_token.spec_token() is Some ==> lookup is Some,
        ensures
            match self.access_token.spec_token() {
                Option::None => r == Result::<Session, AuthorizationVerificationError>::Err(
                    AuthorizationVerificationError::MissingToken,
                ),
                Option::Some(_) => match lookup->0 {
                    Result::Ok(pair) => r == Result::<
                        Session,
                        AuthorizationVerificationError,
                    >::Ok(pair.1),
                    Result::Err(e) => r == Result::<Session, AuthorizationVerificationError>::Err(
                        classify_lookup_error(e),
                    ),
                },
            },
    {
        match self.access_token.fetch(lookup) {
            Ok(pair) => Ok(pair.1),
            Err(e) => Err(e),
        }
    }

    /// Verifies the located credential and additionally requires that a form
    /// payload was decoded during extraction, whichever source the token
    /// itself came from.
    pub fn protected_form(self, lookup: Option<Result<(AccessTokenRecord, Session), LookupError>>)
        -> (r: Result<(Session, F), AuthorizationVerificationError>)
        requires
            self.form is Some && self.access_token.spec_token() is Some ==> lookup is Some,
        ensures
            match self.form {
                Option::None => r == Result::<(Session, F), AuthorizationVerificationError>::Err(
                    AuthorizationVerificationError::MissingForm,
                ),
                Option::Some(f) => match self.access_token.spec_token() {
                    Option::None => r == Result::<
                        (Session, F),
                        AuthorizationVerificationError,
                    >::Err(AuthorizationVerificationError::MissingToken),
                    Option::Some(_) => match lookup->0 {
                        Result::Ok(pair) => r == Result::<
                            (Session, F),
                            AuthorizationVerificationError,
                        >::Ok((pair.1, f)),
                        Result::Err(e) => r == Result::<
                            (Session, F),
                            AuthorizationVerificationError,
                        >::Err(classify_lookup_error(e)),
                    },
                },
            },
    {
        let UserAuthorization { access_token, form } = self;
        let f = match form {
            Some(f) => f,
            None => {
                return Err(AuthorizationVerificationError::MissingForm);
            },
        };
        match access_token.fetch(lookup) {
            Ok(pair) => Ok((pair.1, f)),
            Err(e) => Err(e),
        }
    }
}

} // verus!
