//! Authentication: Clerk JWT extraction and header checks, the users they
//! yield, and the development bypass.
use vstd::prelude::*;
use crate::json::{JsonValue, get_field, json_field, json_from_serde, json_str, parse_json, serde_json_parse};
use crate::text::{
    char_views, has_prefix, push_str, split_char, split_on, starts_with, str_eq, string_from_chars,
    sub_vec, to_chars, to_uppercase, trim, trim_vec, unicode_uppercase,
};

verus! {

/// The authenticated user.
#[derive(Debug, Clone)]
pub struct AuthenticatedUser {
    /// Clerk user ID.
    pub sub: String,
    pub email: String,
    pub first_name: Option<String>,
    pub last_name: Option<String>,
    pub org_id: Option<String>,
}

/// Authentication errors.
#[derive(Debug, Clone, PartialEq, Eq)]
pub enum AuthError {
    MissingCredentials,
    InvalidToken(String),
    JwksError(String),
}

/// The display text of an authentication error.
pub open spec fn auth_error_text(e: AuthError) -> Seq<char> {
    match e {
        AuthError::MissingCredentials => "Missing authorization header or cookie"@,
        AuthError::InvalidToken(m) => "Invalid or expired token: "@ + m@,
        AuthError::JwksError(m) => "Failed to fetch JWKS: "@ + m@,
    }
}

impl AuthError {
    /// The display text of the error.
    pub fn message(&self) -> (r: String)
        ensures
            r@ == auth_error_text(*self),
    {
        let mut r = String::new();
        match self {
            AuthError::MissingCredentials => push_str(&mut r, "Missing authorization header or cookie"),
            AuthError::InvalidToken(m) => {
                push_str(&mut r, "Invalid or expired token: ");
                push_str(&mut r, m.as_str());
            },
            AuthError::JwksError(m) => {
                push_str(&mut r, "Failed to fetch JWKS: ");
                push_str(&mut r, m.as_str());
            },
        }
        assert(r@ =~= auth_error_text(*self));
        r
    }
}

// ---------------------------------------------------------------------------
// Extracting the token from a request
// ---------------------------------------------------------------------------

/// An HTTP request, carried opaque.
#[verifier::external_type_specification]
#[verifier::external_body]
#[verifier::reject_recursive_types(T)]
pub struct ExRequest<T>(axum::http::Request<T>);

/// Calls `HeaderMap::get` on the request's headers and `HeaderValue::to_str`:
/// the named header's value when present and made of visible ASCII. The
/// request is opaque here, so nothing is stated about the value.
#[verifier::external_body]
fn header_text<B>(request: &axum::http::Request<B>, name: &str) -> Option<String> {
    match request.headers().get(name) {
        Some(v) => v.to_str().ok().map(|s| s.to_owned()),
        None => None,
    }
}

/// The value of the first `__session=` pair among the `;`-separated cookie pairs
/// (each pair trimmed).
pub open spec fn session_in(pairs: Seq<Seq<char>>) -> Option<Seq<char>>
    decreases pairs.len(),
{
    if pairs.len() == 0 {
        None
    } else if starts_with(trim(pairs[0]), "__session="@) {
        Some(trim(pairs[0]).skip(10))
    } else {
        session_in(pairs.drop_first())
    }
}

/// The JWT carried by the request headers: the `Authorization` value after
/// `Bearer `, else the `__session` cookie, else none.
pub open spec fn jwt_from_spec(authorization: Option<Seq<char>>, cookie: Option<Seq<char>>) -> Option<Seq<char>> {
    if authorization matches Some(a) && starts_with(a, "Bearer "@) {
        Some(authorization->0.skip(7))
    } else {
        match cookie {
            Some(c) => session_in(split_char(c, ';')),
            None => None,
        }
    }
}

/// The JWT carried by the `Authorization` and `Cookie` header values.
pub fn jwt_from_headers(authorization: Option<&str>, cookie: Option<&str>) -> (r: Option<String>)
    ensures
        match r {
            Some(t) => jwt_from_spec(
                match authorization { Some(a) => Some(a@), None => None },
                match cookie { Some(c) => Some(c@), None => None },
            ) == Some(t@),
            None => jwt_from_spec(
                match authorization { Some(a) => Some(a@), None => None },
                match cookie { Some(c) => Some(c@), None => None },
            ) is None,
        },
{
    if let Some(a) = authorization {
        let ac = to_chars(a);
        proof {
            reveal_strlit("Bearer ");
        }
        if has_prefix(&ac, "Bearer ") {
            let t = sub_vec(&ac, 7, ac.len());
            assert(t@ =~= a@.skip(7));
            return Some(string_from_chars(&t));
        }
    }
    match cookie {
        Some(c) => {
            let cc = to_chars(c);
            let pairs = split_on(&cc, ';');
            let ghost ps = char_views(pairs@);
            let mut i: usize = 0;
            assert(ps.skip(0) =~= ps);
            while i < pairs.len()
                invariant
                    i <= pairs.len(),
                    ps == char_views(pairs@),
                    ps == split_char(c@, ';'),
                    cookie == Some(c),
                    match authorization {
                        Some(a) => !starts_with(a@, "Bearer "@),
                        None => true,
                    },
                    session_in(ps) == session_in(ps.skip(i as int)),
                decreases pairs.len() - i,
            {
                assert(ps.skip(i as int).drop_first() =~= ps.skip(i + 1));
                assert(ps.skip(i as int)[0] == pairs@[i as int]@);
                let p = trim_vec(&pairs[i]);
                proof {
                    reveal_strlit("__session=");
                }
                if has_prefix(&p, "__session=") {
                    let v = sub_vec(&p, 10, p.len());
                    assert(v@ =~= p@.skip(10));
                    return Some(string_from_chars(&v));
                }
                i = i + 1;
            }
            None
        },
        None => None,
    }
}

/// Extract the JWT from the request's `Authorization` header or its
/// `__session` cookie.
pub fn extract_jwt_from_request<B>(request: &axum::http::Request<B>) -> (r: Option<String>) {
    let authorization = header_text(request, "authorization");
    let cookie = header_text(request, "cookie");
    let a = match &authorization {
        Some(s) => Some(s.as_str()),
        None => None,
    };
    let c = match &cookie {
        Some(s) => Some(s.as_str()),
        None => None,
    };
    jwt_from_headers(a, c)
}

// ---------------------------------------------------------------------------
// Token header checks
// ---------------------------------------------------------------------------

/// JWT signing algorithms, as jsonwebtoken names them.
#[derive(Debug, Clone, Copy, PartialEq, Eq, Structural)]
pub enum JwtAlgorithm {
    HS256,
    HS384,
    HS512,
    ES256,
    ES384,
    RS256,
    RS384,
    RS512,
    PS256,
    PS384,
    PS512,
    EdDSA,
    /// An algorithm this library does not know by name.
    Other,
}

/// The `{:?}` name of an algorithm.
pub open spec fn algorithm_name(a: JwtAlgorithm) -> Seq<char> {
    match a {
        JwtAlgorithm::HS256 => "HS256"@,
        JwtAlgorithm::HS384 => "HS384"@,
        JwtAlgorithm::HS512 => "HS512"@,
        JwtAlgorithm::ES256 => "ES256"@,
        JwtAlgorithm::ES384 => "ES384"@,
        JwtAlgorithm::RS256 => "RS256"@,
        JwtAlgorithm::RS384 => "RS384"@,
        JwtAlgorithm::RS512 => "RS512"@,
        JwtAlgorithm::PS256 => "PS256"@,
        JwtAlgorithm::PS384 => "PS384"@,
        JwtAlgorithm::PS512 => "PS512"@,
        JwtAlgorithm::EdDSA => "EdDSA"@,
        JwtAlgorithm::Other => "Other"@,
    }
}

/// The `{:?}` name of an algorithm.
pub fn algorithm_name_of(a: JwtAlgorithm) -> (r: String)
    ensures
        r@ == algorithm_name(a),
{
    match a {
        JwtAlgorithm::HS256 => "HS256".to_owned(),
        JwtAlgorithm::HS384 => "HS384".to_owned(),
        JwtAlgorithm::HS512 => "HS512".to_owned(),
        JwtAlgorithm::ES256 => "ES256".to_owned(),
        JwtAlgorithm::ES384 => "ES384".to_owned(),
        JwtAlgorithm::RS256 => "RS256".to_owned(),
        JwtAlgorithm::RS384 => "RS384".to_owned(),
        JwtAlgorithm::RS512 => "RS512".to_owned(),
        JwtAlgorithm::PS256 => "PS256".to_owned(),
        JwtAlgorithm::PS384 => "PS384".to_owned(),
        JwtAlgorithm::PS512 => "PS512".to_owned(),
        JwtAlgorithm::EdDSA => "EdDSA".to_owned(),
        JwtAlgorithm::Other => "Other".to_owned(),
    }
}

/// The header fields of a JWT that the checks read.
#[derive(Debug, Clone)]
pub struct JwtHeader {
    pub typ: Option<String>,
    pub alg: JwtAlgorithm,
    pub kid: Option<String>,
}

/// jsonwebtoken's signing algorithms, carried opaque.
#[verifier::external_type_specification]
#[verifier::external_body]
pub struct ExAlgorithm(jsonwebtoken::Algorithm);

/// What `jsonwebtoken::decode_header` makes of a token: its `typ`, `alg` and
/// `kid` fields, or the error's display text.
pub uninterp spec fn jwt_header_of(token: Seq<char>) -> Result<JwtHeader, Seq<char>>;

/// Calls `jsonwebtoken::decode_header` and keeps the fields the checks read.
#[verifier::external_body]
pub(crate) fn decode_jwt_header(token: &str) -> (r: Result<JwtHeader, String>)
    ensures
        match r {
            Ok(h) => jwt_header_of(token@) == Ok::<JwtHeader, Seq<char>>(h),
            Err(e) => jwt_header_of(token@) == Err::<JwtHeader, Seq<char>>(e@),
        },
{
    match jsonwebtoken::decode_header(token) {
        Ok(h) => Ok(JwtHeader { typ: h.typ, alg: algorithm_from(h.alg), kid: h.kid }),
        Err(e) => Err(e.to_string()),
    }
}

/// Converts a jsonwebtoken algorithm, variant by variant.
#[verifier::external_body]
fn algorithm_from(a: jsonwebtoken::Algorithm) -> JwtAlgorithm {
    match a {
        jsonwebtoken::Algorithm::HS256 => JwtAlgorithm::HS256,
        jsonwebtoken::Algorithm::HS384 => JwtAlgorithm::HS384,
        jsonwebtoken::Algorithm::HS512 => JwtAlgorithm::HS512,
        jsonwebtoken::Algorithm::ES256 => JwtAlgorithm::ES256,
        jsonwebtoken::Algorithm::ES384 => JwtAlgorithm::ES384,
        jsonwebtoken::Algorithm::RS256 => JwtAlgorithm::RS256,
        jsonwebtoken::Algorithm::RS384 => JwtAlgorithm::RS384,
        jsonwebtoken::Algorithm::RS512 => JwtAlgorithm::RS512,
        jsonwebtoken::Algorithm::PS256 => JwtAlgorithm::PS256,
        jsonwebtoken::Algorithm::PS384 => JwtAlgorithm::PS384,
        jsonwebtoken::Algorithm::PS512 => JwtAlgorithm::PS512,
        jsonwebtoken::Algorithm::EdDSA => JwtAlgorithm::EdDSA,
        _ => JwtAlgorithm::Other,
    }
}

/// `r` is the verdict on a decoded header, where `typ_upper` is the uppercase
/// form of its type (when it has one).
pub open spec fn header_checked(
    header: Result<JwtHeader, Seq<char>>,
    typ_upper: Option<Seq<char>>,
    r: Result<String, AuthError>,
) -> bool {
    match header {
        Err(e) => r matches Err(AuthError::InvalidToken(m)) && m@ == e,
        Ok(h) => if h.typ is Some && typ_upper != Some("JWT"@) {
            r matches Err(AuthError::InvalidToken(m)) && m@ == "Invalid token type: expected JWT, got "@
                + h.typ->0@
        } else if h.alg != JwtAlgorithm::RS256 {
            r matches Err(AuthError::InvalidToken(m)) && m@ == "Invalid algorithm: expected RS256, got "@
                + algorithm_name(h.alg)
        } else {
            match h.kid {
                Some(k) => r matches Ok(kid) && kid@ == k@,
                None => r matches Err(AuthError::InvalidToken(m)) && m@ == "Missing kid"@,
            }
        },
    }
}

/// Checks a decoded header, given the uppercase form of its type.
pub fn check_header(header: Result<JwtHeader, String>, typ_upper: Option<String>) -> (r: Result<String, AuthError>)
    ensures
        header_checked(
            match header {
                Ok(h) => Ok(h),
                Err(e) => Err(e@),
            },
            match typ_upper {
                Some(u) => Some(u@),
                None => None,
            },
            r,
        ),
{
    match header {
        Err(e) => Err(AuthError::InvalidToken(e)),
        Ok(h) => {
            if let Some(t) = &h.typ {
                let is_jwt = match &typ_upper {
                    Some(u) => str_eq(u.as_str(), "JWT"),
                    None => false,
                };
                if !is_jwt {
                    let mut m = String::new();
                    push_str(&mut m, "Invalid token type: expected JWT, got ");
                    push_str(&mut m, t.as_str());
                    assert(m@ =~= "Invalid token type: expected JWT, got "@ + t@);
                    return Err(AuthError::InvalidToken(m));
                }
            }
            if h.alg != JwtAlgorithm::RS256 {
                let mut m = String::new();
                push_str(&mut m, "Invalid algorithm: expected RS256, got ");
                let n = algorithm_name_of(h.alg);
                push_str(&mut m, n.as_str());
                assert(m@ =~= "Invalid algorithm: expected RS256, got "@ + algorithm_name(h.alg));
                return Err(AuthError::InvalidToken(m));
            }
            match h.kid {
                Some(k) => Ok(k),
                None => Err(AuthError::InvalidToken("Missing kid".to_owned())),
            }
        },
    }
}

/// The verdict on a token's header: the key id to verify it with, or the
/// reason it is refused.
pub open spec fn header_verdict(token: Seq<char>) -> Result<Seq<char>, Seq<char>> {
    match jwt_header_of(token) {
        Err(e) => Err(e),
        Ok(h) => if h.typ is Some && unicode_uppercase(h.typ->0@) != "JWT"@ {
            Err("Invalid token type: expected JWT, got "@ + h.typ->0@)
        } else if h.alg != JwtAlgorithm::RS256 {
            Err("Invalid algorithm: expected RS256, got "@ + algorithm_name(h.alg))
        } else {
            match h.kid {
                Some(k) => Ok(k@),
                None => Err("Missing kid"@),
            }
        },
    }
}

/// Decodes a token's header and checks it: the key id to verify the token
/// with, or why the token is invalid.
pub fn check_token_header(token: &str) -> (r: Result<String, AuthError>)
    ensures
        match r {
            Ok(kid) => header_verdict(token@) == Ok::<Seq<char>, Seq<char>>(kid@),
            Err(e) => e matches AuthError::InvalidToken(m) && header_verdict(token@) == Err::<
                Seq<char>,
                Seq<char>,
            >(m@),
        },
        header_checked(
            jwt_header_of(token@),
            match jwt_header_of(token@) {
                Ok(h) => match h.typ {
                    Some(t) => Some(unicode_uppercase(t@)),
                    None => None,
                },
                Err(_) => None,
            },
            r,
        ),
{
    let header = decode_jwt_header(token);
    let upper = match &header {
        Ok(h) => match &h.typ {
            Some(t) => Some(to_uppercase(t.as_str())),
            None => None,
        },
        Err(_) => None,
    };
    check_header(header, upper)
}

/// A JSON Web Key: key id and RSA components.
#[derive(Debug, Clone)]
pub struct JwkKey {
    pub kid: String,
    pub n: String,
    pub e: String,
}

/// The first key with the given id, or an invalid-token error naming the id.
pub fn find_key<'a>(keys: &'a Vec<JwkKey>, kid: &str) -> (r: Result<&'a JwkKey, AuthError>)
    ensures
        match r {
            Ok(k) => exists|i: int|
                0 <= i < keys@.len() && keys@[i] == *k && k.kid@ == kid@ && forall|j: int|
                    0 <= j < i ==> (#[trigger] keys@[j]).kid@ != kid@,
            Err(e) => (e matches AuthError::InvalidToken(m) && m@ == "Unknown kid: "@ + kid@) && forall|j: int|
                0 <= j < keys@.len() ==> (#[trigger] keys@[j]).kid@ != kid@,
        },
{
    let mut i: usize = 0;
    while i < keys.len()
        invariant
            i <= keys.len(),
            forall|j: int| 0 <= j < i ==> (#[trigger] keys@[j]).kid@ != kid@,
        decreases keys.len() - i,
    {
        if str_eq(keys[i].kid.as_str(), kid) {
            return Ok(&keys[i]);
        }
        i = i + 1;
    }
    let mut m = String::new();
    push_str(&mut m, "Unknown kid: ");
    push_str(&mut m, kid);
    assert(m@ =~= "Unknown kid: "@ + kid@);
    Err(AuthError::InvalidToken(m))
}

/// The user known only by its subject claim.
pub fn user_from_subject(sub: String) -> (u: AuthenticatedUser)
    ensures
        u.sub == sub,
        u.email@.len() == 0,
        u.first_name is None,
        u.last_name is None,
        u.org_id is None,
{
    AuthenticatedUser { sub, email: String::new(), first_name: None, last_name: None, org_id: None }
}

// ---------------------------------------------------------------------------
// Claims and the user they name
// ---------------------------------------------------------------------------

/// The text of an optional string, if there is one.
pub open spec fn opt_text(o: Option<String>) -> Option<Seq<char>> {
    match o {
        Some(s) => Some(s@),
        None => None,
    }
}

/// A user as plain values: subject, email, first name, last name and
/// organisation.
pub open spec fn user_fields(u: AuthenticatedUser) -> (
    Seq<char>,
    Seq<char>,
    Option<Seq<char>>,
    Option<Seq<char>>,
    Option<Seq<char>>,
) {
    (u.sub@, u.email@, opt_text(u.first_name), opt_text(u.last_name), opt_text(u.org_id))
}

/// An optional string field as serde reads an `Option<String>`: a missing
/// field or `null` gives `Some(None)`, a string `Some(Some(text))`; anything
/// else does not deserialize (`None`).
pub open spec fn optional_text(v: Option<JsonValue>) -> Option<Option<Seq<char>>> {
    match v {
        None => Some(None),
        Some(JsonValue::Null) => Some(None),
        Some(JsonValue::String(s)) => Some(Some(s@)),
        _ => None,
    }
}

/// The session claims `(sub, sid, __raw)` a token's payload deserializes as:
/// an object with string `sub` and `sid` and an optional string `__raw`
/// (other members ignored), or an array of exactly those three in order.
pub open spec fn clerk_claims(c: JsonValue) -> Option<(Seq<char>, Seq<char>, Option<Seq<char>>)> {
    match c {
        JsonValue::Object(_) => match (
            json_str(json_field(c, "sub"@)),
            json_str(json_field(c, "sid"@)),
            optional_text(json_field(c, "__raw"@)),
        ) {
            (Some(sub), Some(sid), Some(raw)) => Some((sub, sid, raw)),
            _ => None,
        },
        JsonValue::Array(items) => if items@.len() == 3 {
            match (
                json_str(Some(items@[0])),
                json_str(Some(items@[1])),
                optional_text(Some(items@[2])),
            ) {
                (Some(sub), Some(sid), Some(raw)) => Some((sub, sid, raw)),
                _ => None,
            }
        } else {
            None
        },
        _ => None,
    }
}

/// The user a JSON document deserializes as: an object with string `sub` and
/// `email` and optional string `first_name`, `last_name` and `org_id` (other
/// members ignored), or an array of exactly those five in order.
pub open spec fn raw_user(v: JsonValue) -> Option<
    (Seq<char>, Seq<char>, Option<Seq<char>>, Option<Seq<char>>, Option<Seq<char>>),
> {
    match v {
        JsonValue::Object(_) => match (
            json_str(json_field(v, "sub"@)),
            json_str(json_field(v, "email"@)),
            optional_text(json_field(v, "first_name"@)),
            optional_text(json_field(v, "last_name"@)),
            optional_text(json_field(v, "org_id"@)),
        ) {
            (Some(s), Some(e), Some(f), Some(l), Some(o)) => Some((s, e, f, l, o)),
            _ => None,
        },
        JsonValue::Array(items) => if items@.len() == 5 {
            match (
                json_str(Some(items@[0])),
                json_str(Some(items@[1])),
                optional_text(Some(items@[2])),
                optional_text(Some(items@[3])),
                optional_text(Some(items@[4])),
            ) {
                (Some(s), Some(e), Some(f), Some(l), Some(o)) => Some((s, e, f, l, o)),
                _ => None,
            }
        } else {
            None
        },
        _ => None,
    }
}

/// The user session claims name: the user their `__raw` member parses as,
/// when it has one that does; otherwise the user known by the subject alone.
pub open spec fn claims_user(sub: Seq<char>, raw: Option<Seq<char>>) -> (
    Seq<char>,
    Seq<char>,
    Option<Seq<char>>,
    Option<Seq<char>>,
    Option<Seq<char>>,
) {
    let by_subject = (sub, Seq::<char>::empty(), None::<Seq<char>>, None::<Seq<char>>, None::<Seq<char>>);
    match raw {
        Some(text) => match serde_json_parse(text) {
            Some(doc) => match raw_user(doc) {
                Some(u) => u,
                None => by_subject,
            },
            None => by_subject,
        },
        None => by_subject,
    }
}

/// The text of a string value, if it is one.
fn text_of(v: Option<&JsonValue>) -> (r: Option<String>)
    ensures
        match r {
            Some(t) => json_str(match v { Some(x) => Some(*x), None => None }) == Some(t@),
            None => json_str(match v { Some(x) => Some(*x), None => None }) is None,
        },
{
    match v {
        Some(JsonValue::String(s)) => Some(s.clone()),
        _ => None,
    }
}

/// An optional string field as serde reads an `Option<String>`.
fn optional_text_of(v: Option<&JsonValue>) -> (r: Option<Option<String>>)
    ensures
        match r {
            Some(t) => optional_text(match v { Some(x) => Some(*x), None => None }) == Some(opt_text(t)),
            None => optional_text(match v { Some(x) => Some(*x), None => None }) is None,
        },
{
    match v {
        None => Some(None),
        Some(JsonValue::Null) => Some(None),
        Some(JsonValue::String(s)) => Some(Some(s.clone())),
        _ => None,
    }
}

/// The session claims `(sub, sid, __raw)` of a token's payload, if it
/// deserializes as them.
pub fn clerk_claims_of(c: &JsonValue) -> (r: Option<(String, String, Option<String>)>)
    ensures
        match r {
            Some((sub, sid, raw)) => clerk_claims(*c) == Some((sub@, sid@, opt_text(raw))),
            None => clerk_claims(*c) is None,
        },
{
    match c {
        JsonValue::Object(_) => {
            let sub = text_of(get_field(c, "sub"));
            let sid = text_of(get_field(c, "sid"));
            let raw = optional_text_of(get_field(c, "__raw"));
            match (sub, sid, raw) {
                (Some(a), Some(b), Some(r)) => Some((a, b, r)),
                _ => None,
            }
        },
        JsonValue::Array(items) => {
            if items.len() == 3 {
                let sub = text_of(Some(&items[0]));
                let sid = text_of(Some(&items[1]));
                let raw = optional_text_of(Some(&items[2]));
                match (sub, sid, raw) {
                    (Some(a), Some(b), Some(r)) => Some((a, b, r)),
                    _ => None,
                }
            } else {
                None
            }
        },
        _ => None,
    }
}

/// The user a JSON document deserializes as, if it does.
pub fn raw_user_of(v: &JsonValue) -> (r: Option<AuthenticatedUser>)
    ensures
        match r {
            Some(u) => raw_user(*v) == Some(user_fields(u)),
            None => raw_user(*v) is None,
        },
{
    let (sub, email, first, last, org) = match v {
        JsonValue::Object(_) => (
            text_of(get_field(v, "sub")),
            text_of(get_field(v, "email")),
            optional_text_of(get_field(v, "first_name")),
            optional_text_of(get_field(v, "last_name")),
            optional_text_of(get_field(v, "org_id")),
        ),
        JsonValue::Array(items) => {
            if items.len() == 5 {
                (
                    text_of(Some(&items[0])),
                    text_of(Some(&items[1])),
                    optional_text_of(Some(&items[2])),
                    optional_text_of(Some(&items[3])),
                    optional_text_of(Some(&items[4])),
                )
            } else {
                return None;
            }
        },
        _ => return None,
    };
    match (sub, email, first, last, org) {
        (Some(s), Some(e), Some(f), Some(l), Some(o)) => Some(
            AuthenticatedUser { sub: s, email: e, first_name: f, last_name: l, org_id: o },
        ),
        _ => None,
    }
}

/// The user that valid session claims name: the user their `__raw` member
/// parses as, when it does; otherwise the user known by the subject alone.
pub fn user_from_claims(claims: JsonValue) -> (u: AuthenticatedUser)
    requires
        clerk_claims(claims) is Some,
    ensures
        clerk_claims(claims) matches Some((sub, _sid, raw)) && user_fields(u) == claims_user(sub, raw),
{
    let (sub, _sid, raw) = clerk_claims_of(&claims).unwrap();
    let ghost by_subject = (sub@, Seq::<char>::empty(), None::<Seq<char>>, None::<Seq<char>>, None::<Seq<char>>);
    let parsed = match &raw {
        Some(text) => match parse_json(text.as_str()) {
            Some(doc) => raw_user_of(&doc),
            None => None,
        },
        None => None,
    };
    match parsed {
        Some(u) => u,
        None => {
            let u = user_from_subject(sub);
            assert(user_fields(u) == by_subject);
            u
        },
    }
}

/// Why a token that passed the signature check is still refused: its
/// claims are not session claims.
pub open spec fn invalid_claims_message() -> Seq<char> {
    "invalid session claims"@
}

/// `r` is what verification answers when the signature, issuer, audience and
/// expiry check gave `decoded`: its error, refused claims, or the user the
/// claims name.
pub open spec fn decoded_outcome(
    decoded: Result<JsonValue, Seq<char>>,
    r: Result<AuthenticatedUser, AuthError>,
) -> bool {
    match decoded {
        Err(m) => r matches Err(AuthError::InvalidToken(x)) && x@ == m,
        Ok(c) => match clerk_claims(c) {
            Some((sub, _sid, raw)) => r matches Ok(u) && user_fields(u) == claims_user(sub, raw),
            None => r matches Err(AuthError::InvalidToken(x)) && x@ == invalid_claims_message(),
        },
    }
}

/// A decoding outcome with its error as text.
pub open spec fn decoded_text(decoded: Result<JsonValue, String>) -> Result<JsonValue, Seq<char>> {
    match decoded {
        Ok(c) => Ok(c),
        Err(m) => Err(m@),
    }
}

/// The answer to a token once the signature check has given `decoded`:
/// its error as an invalid token, refused claims, or the user the claims name.
pub fn user_from_decoded(decoded: Result<JsonValue, String>) -> (r: Result<AuthenticatedUser, AuthError>)
    ensures
        decoded_outcome(decoded_text(decoded), r),
{
    match decoded {
        Err(m) => Err(AuthError::InvalidToken(m)),
        Ok(claims) => {
            if clerk_claims_of(&claims).is_some() {
                Ok(user_from_claims(claims))
            } else {
                let m = "invalid session claims".to_owned();
                proof {
                    reveal_strlit("invalid session claims");
                }
                Err(AuthError::InvalidToken(m))
            }
        },
    }
}

/// The issuer a Clerk session token must name.
pub const CLERK_ISSUER: &'static str = "https://clerk.asi.com";

/// The audience a Clerk session token must name.
pub const CLERK_AUDIENCE: &'static str = "asi-app";

/// What `jsonwebtoken::DecodingKey::from_rsa_components` makes of a modulus
/// and exponent text: `None` when it builds a key, else its error's display
/// text.
pub uninterp spec fn rsa_key_error(n: Seq<char>, e: Seq<char>) -> Option<Seq<char>>;

/// The claims jsonwebtoken reads from a token: the payload segment (between
/// the last two dots), base64url decoded and parsed by serde_json as a
/// value, converted member by member; `None` when that fails.
pub uninterp spec fn jwt_payload_of(token: Seq<char>) -> Option<JsonValue>;

/// Whether a token's RS256 signature (PKCS#1 v1.5 over SHA-256 of the
/// header and payload segments) verifies under the RSA public key whose
/// base64url modulus and exponent are `n` and `e`.
pub uninterp spec fn rs256_signature_valid(token: Seq<char>, n: Seq<char>, e: Seq<char>) -> bool;

/// The claim `key` admits `expected` as jsonwebtoken checks an issuer or an
/// audience: a string claim must equal it, an array of strings must hold
/// it; a missing claim, `null`, or a value of another shape is not checked.
pub open spec fn claim_admits(claims: JsonValue, key: Seq<char>, expected: Seq<char>) -> bool {
    match json_field(claims, key) {
        Some(JsonValue::String(s)) => s@ == expected,
        Some(JsonValue::Array(items)) => (forall|i: int| 0 <= i < items@.len() ==> #[trigger] items@[i] is String)
            ==> exists|i: int| 0 <= i < items@.len() && json_str(Some(#[trigger] items@[i])) == Some(expected),
        _ => true,
    }
}

/// Builds the RSA key with `jsonwebtoken::DecodingKey::from_rsa_components`
/// and calls `jsonwebtoken::decode::<serde_json::Value>` with RS256 as the
/// only algorithm and the given issuer and audience, converting the claims.
/// A key that cannot be built gives its error (named by `rsa_key_error`).
/// A success means: the header decoded as RS256 (the same `decode_header`
/// call that `jwt_header_of` names), the signature verifies under the key,
/// the claims are the token's payload, and the `iss` and `aud` claims admit
/// the given issuer and audience, and an object payload has a numeric `exp`
/// claim (which jsonwebtoken requires). The expiry and not-before checks against
/// the system clock are left unsaid, so success itself is not promised; the
/// clock lookup panics only for a system time before 1970.
#[verifier::external_body]
fn decode_rs256_claims(token: &str, n: &str, e: &str, issuer: &str, audience: &str) -> (r: Result<
    JsonValue,
    String,
>)
    ensures
        match r {
            Ok(_) => rsa_key_error(n@, e@) is None,
            Err(x) => rsa_key_error(n@, e@) matches Some(m) ==> x@ == m,
        },
        r matches Ok(c) ==> {
            &&& jwt_header_of(token@) matches Ok(h) && h.alg == JwtAlgorithm::RS256
            &&& rs256_signature_valid(token@, n@, e@)
            &&& jwt_payload_of(token@) == Some(c)
            &&& claim_admits(c, "iss"@, issuer@)
            &&& claim_admits(c, "aud"@, audience@)
            &&& c is Object ==> json_field(c, "exp"@) matches Some(JsonValue::Number(_))
        },
{
    let key = match jsonwebtoken::DecodingKey::from_rsa_components(n, e) {
        Ok(k) => k,
        Err(err) => return Err(err.to_string()),
    };
    let mut validation = jsonwebtoken::Validation::new(jsonwebtoken::Algorithm::RS256);
    validation.set_issuer(&[issuer]);
    validation.set_audience(&[audience]);
    match jsonwebtoken::decode::<serde_json::Value>(token, &key, &validation) {
        Ok(data) => Ok(json_from_serde(data.claims)),
        Err(err) => Err(err.to_string()),
    }
}

/// A token is accepted under a signing key for a user: its header is RS256,
/// the key's components build a key under which its signature verifies, its
/// payload's issuer and audience admit Clerk's, and its claims are session
/// claims naming that user.
pub open spec fn accepted_under(token: Seq<char>, key: JwkKey, u: AuthenticatedUser) -> bool {
    &&& jwt_header_of(token) matches Ok(h) && h.alg == JwtAlgorithm::RS256
    &&& rsa_key_error(key.n@, key.e@) is None
    &&& rs256_signature_valid(token, key.n@, key.e@)
    &&& match jwt_payload_of(token) {
        Some(c) => {
            &&& claim_admits(c, "iss"@, CLERK_ISSUER@)
            &&& claim_admits(c, "aud"@, CLERK_AUDIENCE@)
            &&& match clerk_claims(c) {
                Some((sub, _sid, raw)) => user_fields(u) == claims_user(sub, raw),
                None => false,
            }
        },
        None => false,
    }
}

/// Verifies a Clerk session token against a key set: the header checks,
/// the key named by its id, the RSA key built from that key's components,
/// the signature, issuer, audience and expiry checks, and the user the
/// claims name. Every refusal is an invalid token.
pub fn verify_with_keys(token: &str, keys: &Vec<JwkKey>) -> (r: Result<AuthenticatedUser, AuthError>)
    ensures
        r is Err ==> r matches Err(AuthError::InvalidToken(_)),
        r is Ok ==> header_verdict(token@) is Ok,
        match header_verdict(token@) {
            Err(m) => r matches Err(AuthError::InvalidToken(x)) && x@ == m,
            Ok(kid) => {
                &&& (forall|j: int| 0 <= j < keys@.len() ==> (#[trigger] keys@[j]).kid@ != kid) ==> (r matches Err(
                    AuthError::InvalidToken(x),
                ) && x@ == "Unknown kid: "@ + kid)
                &&& forall|i: int|
                    0 <= i < keys@.len() && (#[trigger] keys@[i]).kid@ == kid && (forall|j: int|
                        0 <= j < i ==> keys@[j].kid@ != kid) ==> {
                        &&& rsa_key_error(keys@[i].n@, keys@[i].e@) matches Some(m) ==> (r matches Err(
                            AuthError::InvalidToken(x),
                        ) && x@ == m)
                        &&& r matches Ok(u) ==> accepted_under(token@, keys@[i], u)
                        &&& exists|d: Result<JsonValue, Seq<char>>| decoded_outcome(d, r)
                    }
            },
        },
{
    let kid = match check_token_header(token) {
        Ok(k) => k,
        Err(e) => return Err(e),
    };
    let jwk = match find_key(keys, kid.as_str()) {
        Ok(k) => k,
        Err(e) => return Err(e),
    };
    let decoded = decode_rs256_claims(token, jwk.n.as_str(), jwk.e.as_str(), CLERK_ISSUER, CLERK_AUDIENCE);
    let ghost d = decoded_text(decoded);
    let r = user_from_decoded(decoded);
    assert(decoded_outcome(d, r));
    r
}

/// The cached signing keys are fresh for an hour.
pub open spec fn jwks_cache_fresh_spec(age_secs: u64) -> bool {
    age_secs < 3600
}

/// Whether keys cached `age_secs` seconds ago may still be used.
pub fn jwks_cache_fresh(age_secs: u64) -> (b: bool)
    ensures
        b == jwks_cache_fresh_spec(age_secs),
{
    age_secs < 3600
}

// ---------------------------------------------------------------------------
// Development bypass
// ---------------------------------------------------------------------------

/// The development bypass is on: the opt-in flag is `true` or `1` and the
/// Clerk key is a test key (`sk_test_...`).
pub open spec fn dev_bypass_enabled(flag: Option<Seq<char>>, clerk_key: Option<Seq<char>>) -> bool {
    &&& (flag matches Some(v) && (v == "true"@ || v == "1"@))
    &&& (clerk_key matches Some(k) && starts_with(k, "sk_test_"@))
}

/// The development user for a user id: `<id>@dev.local`, named Dev User.
pub open spec fn is_dev_user(u: AuthenticatedUser, id: Seq<char>) -> bool {
    &&& u.sub@ == id
    &&& u.email@ == id + "@dev.local"@
    &&& u.first_name matches Some(f) && f@ == "Dev"@
    &&& u.last_name matches Some(l) && l@ == "User"@
    &&& u.org_id is None
}

/// The user the development bypass admits: with the bypass on and an
/// `X-User-ID` header, a development user with that id; none otherwise.
pub fn dev_bypass_user(flag: Option<&str>, clerk_key: Option<&str>, user_id: Option<&str>) -> (r: Option<
    AuthenticatedUser,
>)
    ensures
        match r {
            Some(u) => dev_bypass_enabled(
                match flag { Some(f) => Some(f@), None => None },
                match clerk_key { Some(k) => Some(k@), None => None },
            ) && user_id is Some && is_dev_user(u, user_id->0@),
            None => !dev_bypass_enabled(
                match flag { Some(f) => Some(f@), None => None },
                match clerk_key { Some(k) => Some(k@), None => None },
            ) || user_id is None,
        },
{
    let enabled = match flag {
        Some(v) => str_eq(v, "true") || str_eq(v, "1"),
        None => false,
    };
    let key_ok = match clerk_key {
        Some(k) => {
            let kc = to_chars(k);
            has_prefix(&kc, "sk_test_")
        },
        None => false,
    };
    if enabled && key_ok {
        if let Some(id) = user_id {
            let mut email = id.to_owned();
            push_str(&mut email, "@dev.local");
            return Some(
                AuthenticatedUser {
                    sub: id.to_owned(),
                    email,
                    first_name: Some("Dev".to_owned()),
                    last_name: Some("User".to_owned()),
                    org_id: None,
                },
            );
        }
    }
    None
}

/// The HTTP status of a refused request: unauthorized.
pub const UNAUTHORIZED: u16 = 401;

/// The middleware's verdict on a request: the user a verified token names;
/// failing that, the development user when the bypass is on and the request
/// names one; failing that, the request is refused as unauthorized.
pub fn authorize(
    verified: Option<AuthenticatedUser>,
    flag: Option<&str>,
    clerk_key: Option<&str>,
    user_id: Option<&str>,
) -> (r: Result<AuthenticatedUser, u16>)
    ensures
        verified is Some ==> r == Ok::<AuthenticatedUser, u16>(verified->0),
        verified is None && dev_bypass_enabled(
            match flag { Some(f) => Some(f@), None => None },
            match clerk_key { Some(k) => Some(k@), None => None },
        ) && user_id is Some ==> (r matches Ok(u) && is_dev_user(u, user_id->0@)),
        verified is None && !(dev_bypass_enabled(
            match flag { Some(f) => Some(f@), None => None },
            match clerk_key { Some(k) => Some(k@), None => None },
        ) && user_id is Some) ==> r == Err::<AuthenticatedUser, u16>(UNAUTHORIZED),
{
    match verified {
        Some(u) => Ok(u),
        None => match dev_bypass_user(flag, clerk_key, user_id) {
            Some(u) => Ok(u),
            None => Err(UNAUTHORIZED),
        },
    }
}

} // verus!
