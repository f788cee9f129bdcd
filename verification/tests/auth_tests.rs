use asi::auth::{
    authorize, check_header, check_token_header, dev_bypass_user, extract_jwt_from_request, find_key, jwks_cache_fresh,
    jwt_from_headers, user_from_subject, AuthError, JwkKey, JwtAlgorithm, JwtHeader,
};

#[test]
fn test_extract_jwt_from_auth_header() {
    let req = axum::http::Request::builder()
        .uri("/api/chat")
        .header("authorization", "Bearer test.jwt.token")
        .body(())
        .unwrap();

    let token = extract_jwt_from_request(&req);
    assert_eq!(token, Some("test.jwt.token".to_string()));
}

#[test]
fn test_extract_jwt_from_cookie() {
    let req = axum::http::Request::builder()
        .uri("/api/chat")
        .header("cookie", "other=val; __session=test.cookie.token; more=stuff")
        .body(())
        .unwrap();

    let token = extract_jwt_from_request(&req);
    assert_eq!(token, Some("test.cookie.token".to_string()));
}

#[test]
fn test_no_auth_returns_none() {
    let req = axum::http::Request::builder().uri("/api/chat").body(()).unwrap();

    let token = extract_jwt_from_request(&req);
    assert_eq!(token, None);
}

#[test]
fn header_beats_cookie_and_needs_bearer() {
    assert_eq!(jwt_from_headers(Some("Bearer a.b.c"), Some("__session=x")), Some("a.b.c".to_string()));
    assert_eq!(jwt_from_headers(Some("Basic zzz"), Some("__session=x")), Some("x".to_string()));
    assert_eq!(jwt_from_headers(None, Some("a=1;b=2")), None);
}

fn header(typ: Option<&str>, alg: JwtAlgorithm, kid: Option<&str>) -> JwtHeader {
    JwtHeader { typ: typ.map(|s| s.to_string()), alg, kid: kid.map(|s| s.to_string()) }
}

#[test]
fn header_checks_in_order() {
    let ok = check_header(Ok(header(Some("jwt"), JwtAlgorithm::RS256, Some("k1"))), Some("JWT".into()));
    assert_eq!(ok, Ok("k1".to_string()));
    let bad_typ = check_header(Ok(header(Some("at+jwt"), JwtAlgorithm::RS256, Some("k1"))), Some("AT+JWT".into()));
    assert_eq!(bad_typ, Err(AuthError::InvalidToken("Invalid token type: expected JWT, got at+jwt".into())));
    let bad_alg = check_header(Ok(header(None, JwtAlgorithm::HS256, Some("k1"))), None);
    assert_eq!(bad_alg, Err(AuthError::InvalidToken("Invalid algorithm: expected RS256, got HS256".into())));
    let no_kid = check_header(Ok(header(None, JwtAlgorithm::RS256, None)), None);
    assert_eq!(no_kid, Err(AuthError::InvalidToken("Missing kid".into())));
    let broken = check_header(Err("bad header".into()), None);
    assert_eq!(broken, Err(AuthError::InvalidToken("bad header".into())));
}

#[test]
fn token_header_of_garbage_is_invalid() {
    assert!(matches!(check_token_header("not-a-token"), Err(AuthError::InvalidToken(_))));
}

#[test]
fn token_header_is_decoded() {
    // {"alg":"RS256","typ":"JWT","kid":"abc"} . {} . sig
    let token = "eyJhbGciOiJSUzI1NiIsInR5cCI6IkpXVCIsImtpZCI6ImFiYyJ9.e30.c2ln";
    assert_eq!(check_token_header(token), Ok("abc".to_string()));
}

#[test]
fn keys_are_found_by_id() {
    let keys = vec![
        JwkKey { kid: "a".into(), n: "n1".into(), e: "e1".into() },
        JwkKey { kid: "b".into(), n: "n2".into(), e: "e2".into() },
    ];
    assert_eq!(find_key(&keys, "b").unwrap().n, "n2");
    assert_eq!(find_key(&keys, "z").unwrap_err(), AuthError::InvalidToken("Unknown kid: z".into()));
}

#[test]
fn auth_error_messages() {
    assert_eq!(AuthError::MissingCredentials.message(), "Missing authorization header or cookie");
    assert_eq!(AuthError::JwksError("down".into()).message(), "Failed to fetch JWKS: down");
}

#[test]
fn cache_and_subject_user() {
    assert!(jwks_cache_fresh(3599));
    assert!(!jwks_cache_fresh(3600));
    let u = user_from_subject("user_1".into());
    assert_eq!(u.sub, "user_1");
    assert!(u.email.is_empty());
}

#[test]
fn dev_bypass_needs_flag_test_key_and_id() {
    let u = dev_bypass_user(Some("true"), Some("sk_test_abc"), Some("dev1")).unwrap();
    assert_eq!(u.email, "dev1@dev.local");
    assert_eq!(u.first_name.as_deref(), Some("Dev"));
    assert!(dev_bypass_user(Some("1"), Some("sk_live_abc"), Some("dev1")).is_none());
    assert!(dev_bypass_user(Some("yes"), Some("sk_test_abc"), Some("dev1")).is_none());
    assert!(dev_bypass_user(Some("1"), Some("sk_test_abc"), None).is_none());
}

#[test]
fn refused_requests_get_401() {
    let u = user_from_subject("u1".into());
    assert_eq!(authorize(Some(u), None, None, None).unwrap().sub, "u1");
    assert_eq!(authorize(None, Some("true"), Some("sk_test_x"), Some("dev")).unwrap().sub, "dev");
    assert_eq!(authorize(None, Some("true"), Some("sk_live_x"), Some("dev")).unwrap_err(), 401);
    assert_eq!(authorize(None, None, None, None).unwrap_err(), 401);
}
