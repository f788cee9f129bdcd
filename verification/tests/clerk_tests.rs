use asi::auth::{
    clerk_claims_of, raw_user_of, user_from_claims, user_from_decoded, verify_with_keys, AuthError, AuthenticatedUser,
    JwkKey, CLERK_AUDIENCE, CLERK_ISSUER,
};
use asi::json::JsonValue;

fn concat_lines(parts: &[&str]) -> String {
    parts.concat()
}

fn modulus() -> String {
    concat_lines(&[
        "lIyFxHKJ0hD7XT39rBBpqJxA1D1is_1PJpgY_UzSNjDSVcHHUF5MKnQUgGVUWpjOivIoRurnxAeyKQVLIlbltwZPwb",
        "wNIdQIbv6fu9GSLvlZB-ncPESZw9EFAQ5BU-I4_zsY0eTiiolpgiWCq6SbdczDqnaKgf5Prz7s-SbFIVG-QBnfP1fl",
        "ZgsiZs8JnVkaV9g4fJt44VAR7eGnnrY-SAvxPaR4bEhS724_eETGllVGnea3Acmu1PTuOn_NBPAMOy3LaXvt76DRqZ",
        "9LsKztrF-wShYAqu_IvEQNW1aZR0QoWO4Rgrcyj5HrHQrcxz_0EBW-sWc8ySRZ3njgGmdryQ",
    ])
}

fn signing_keys() -> Vec<JwkKey> {
    vec![
        JwkKey { kid: "k0".into(), n: "AQAB".into(), e: "AQAB".into() },
        JwkKey { kid: "k1".into(), n: modulus(), e: "AQAB".into() },
    ]
}

fn token_with_raw_user() -> String {
    concat_lines(&[
        "eyJhbGciOiJSUzI1NiIsInR5cCI6IkpXVCIsImtpZCI6ImsxIn0.eyJzdWIiOiJ1c2VyXzEiLCJzaWQiOiJzZXNzXz",
        "EiLCJpc3MiOiJodHRwczovL2NsZXJrLmFzaS5jb20iLCJhdWQiOiJhc2ktYXBwIiwiZXhwIjo0MTAyNDQ0ODAwLCJf",
        "X3JhdyI6IntcInN1YlwiOlwidXNlcl8yXCIsXCJlbWFpbFwiOlwiYWRhQGV4YW1wbGUuY29tXCIsXCJmaXJzdF9uYW",
        "1lXCI6XCJBZGFcIixcImxhc3RfbmFtZVwiOm51bGwsXCJvcmdfaWRcIjpcIm9yZ185XCJ9In0.dA8r9zsI5U7oTKlL",
        "I480oqs1cjrHS_BJQrop-m5Z2EGI51L8pmiKpnzxQmT_QZexYl5OTyi09I8YtKfCRhFL7ml7iJAwqBGO4PprA4MQrv",
        "-W7E2BB1AZJFP4wietcEJX-Vq0Havv_uPcy-AMc9LS8DwVO_4Kgjh1qznKCu0zs1lQ7wG1J95Ia_m3Y9YI_3OwXstT",
        "DBM-Osc9k1lDekQ0cRBqVXx4-HRS81TO9LvxUKmSxwpR0AF0vCJZXY3WUhjSyUGNhkMjUxQTcU9nYPK2mNGRAF8OL_",
        "ZKa1hcStrJvfCEe8ssJkD0UvqYJ7OekcoYGEXviyP2l23uoHTxK61xpQ",
    ])
}

fn token_without_raw() -> String {
    concat_lines(&[
        "eyJhbGciOiJSUzI1NiIsInR5cCI6IkpXVCIsImtpZCI6ImsxIn0.eyJzdWIiOiJ1c2VyXzEiLCJzaWQiOiJzZXNzXz",
        "EiLCJpc3MiOiJodHRwczovL2NsZXJrLmFzaS5jb20iLCJhdWQiOiJhc2ktYXBwIiwiZXhwIjo0MTAyNDQ0ODAwfQ.d",
        "YXhH71sB9t95urQivKal1Tsarkn7DFDsD8ABJi0OmUQghXat0jpOiM5ylsLp3M6-fG22hySHV04NKhj34l3WkcfURd",
        "HTlahocfem8Zd6Euy9cY6waq1GWCF4419n4a4QauVX0n_5s8SNePNaOQmFF8FIumMe7369ZfVJ6jDmf_7CMVjtt1Zx",
        "3BbJanFQjVcysNHeOikMaA4CZxaeOMQV5t3_qI9EDXvrqiNMqI-gU7on_-aWgFjYlceH5newso8J_Vb9_csbtKwxsB",
        "CwKiVaW35Sb3VU4FgiJI1PXWHPN9IGTN_uYN3KPgoerXkcExrgzEsK6tJozVcBHVVFtY2kA",
    ])
}

fn expired_token() -> String {
    concat_lines(&[
        "eyJhbGciOiJSUzI1NiIsInR5cCI6IkpXVCIsImtpZCI6ImsxIn0.eyJzdWIiOiJ1c2VyXzEiLCJzaWQiOiJzZXNzXz",
        "EiLCJpc3MiOiJodHRwczovL2NsZXJrLmFzaS5jb20iLCJhdWQiOiJhc2ktYXBwIiwiZXhwIjoxMDAwMDAwMDAwfQ.V",
        "RSJ5rp5h5ir5DcmxuIXG9QzkqCBIdmfD1enR2-SgfmYvIqQ-oLZuK6dNxYXypuupOLT_ohkBi3ILbecj7P3ERAvYFa",
        "dh9janfNV31NqijMYEke8d9A7Y2vRSsPU_cf1jbr8dwRLnt7VWMuQMHqWKsPN9Zbo3T_J_4upVmD8gJuNZDJEb-stg",
        "9jo1e5hB6lkSEMcUuN-SlZ4X5nVfclwf9jcLKWSDrdGDQhDmdBdPgnz1mvyBFoSc8moa_mn9Z-zgYBT4f3RsAJm4Rw",
        "dG54pzgOYQ5SGo-Jyrw9028lGakk6Abtkf9zwwzd41pVA7y9aSKmB0DN8HPCaxCMaLSABYA",
    ])
}

fn token_from_other_issuer() -> String {
    concat_lines(&[
        "eyJhbGciOiJSUzI1NiIsInR5cCI6IkpXVCIsImtpZCI6ImsxIn0.eyJzdWIiOiJ1c2VyXzEiLCJzaWQiOiJzZXNzXz",
        "EiLCJpc3MiOiJodHRwczovL2V2aWwuZXhhbXBsZSIsImF1ZCI6ImFzaS1hcHAiLCJleHAiOjQxMDI0NDQ4MDB9.PL7",
        "VPlRMaQXfZP0YbOQsTnfBds9jBb-GX6-S3YT_6IEexdk32ftCe3nNba1sUj4kJmqDoeiMxh3Dn6qhdjlTfVs588hzJ",
        "v4C_uQIFlfRg4-KXif-H1vJZhycpuEENlO9sIqodza0gyyoP6ajKb1nSQF2O5PQamouZFPetaTeZHgZpA4FONF6dSB",
        "GUO_n41yg2Qr2giFCZPxKHgZH_XD6Inn3MmQS4VZeirPaVLq4ow54l12liwzkd1qpKd566eyjtUZHrtFQ7f7Z1rC8e",
        "OuO2KTiP0whPTtX2FVrBHo7VQiI6q8CcQh85XGYBANQQ6SfcdwP0GHxHJN6v5_23SSjyg",
    ])
}

fn token_for_other_audience() -> String {
    concat_lines(&[
        "eyJhbGciOiJSUzI1NiIsInR5cCI6IkpXVCIsImtpZCI6ImsxIn0.eyJzdWIiOiJ1c2VyXzEiLCJzaWQiOiJzZXNzXz",
        "EiLCJpc3MiOiJodHRwczovL2NsZXJrLmFzaS5jb20iLCJhdWQiOiJvdGhlciIsImV4cCI6NDEwMjQ0NDgwMH0.ZZ-i",
        "g7UhCDlfU66RZiN-Ulq2qemFlB74b2a_NtQLq2FpraTRXty2dCAasjaXn5iQhnb_Yu8YwXsycrip4UAFOuwLXIMfLv",
        "SZdicaXEXplSkZ8smwWiwQwOmLkjKspSQbl1BHvJdpOunJGQ-95fRLtUAKGhC9c6ufTBsMIhcbWvnwLcH0N8TTnDyE",
        "kYa8WLHobEKuCnpLrQwuhuJbwMmnQf5QSMupAdDJxWXTHKIGC2IfKGBZ-84Q2-bPOat6iG-pAB4MVOfaT-YWbipfcW",
        "hwUhTUYXKPqkpnwP5VdVlHLdXSUHZsZADIC8pbYEUQVM9OzU5bVmgjXUw2NtyFKxIeig",
    ])
}

fn token_without_session_id() -> String {
    concat_lines(&[
        "eyJhbGciOiJSUzI1NiIsInR5cCI6IkpXVCIsImtpZCI6ImsxIn0.eyJzdWIiOiJ1c2VyXzEiLCJpc3MiOiJodHRwcz",
        "ovL2NsZXJrLmFzaS5jb20iLCJhdWQiOiJhc2ktYXBwIiwiZXhwIjo0MTAyNDQ0ODAwfQ.K4lUO9JxHg5v7aL667o8f",
        "Bc30wHdvuP5bx-RPAivnndd40N_m1-lynv67MqEn_j5SIF5HsWWwS9TAkgzY8dtLTMG2PHcgHtn8Hcqe0HkxjeLu8E",
        "VOA4_iehRXy4bIQRAKn0ev5cmyM_yNxlCsKqiOxr-Vo_9MCdWvSjOLgdShyOvEkH1esAlCCjXSr0Dnh4RLuEjkhOLy",
        "rd1650QMmoCYZncmz-fSheBxMuKI5aL2yWLDPboz3y1DTELFRlXMeXfA89OCDHl03Zzq9FiYKrrDLG8KbOeTZkaBgc",
        "hyxkkRY-wF9Pzs5v9TKXUMFftJzptyiWzvrF650ihNdaZe6CfGg",
    ])
}

fn text(s: &str) -> JsonValue {
    JsonValue::String(s.to_string())
}

fn object(members: Vec<(&str, JsonValue)>) -> JsonValue {
    JsonValue::Object(members.into_iter().map(|(k, v)| (k.to_string(), v)).collect())
}

fn subject_only(u: &AuthenticatedUser, sub: &str) -> bool {
    u.sub == sub && u.email.is_empty() && u.first_name.is_none() && u.last_name.is_none() && u.org_id.is_none()
}

#[test]
fn clerk_constants() {
    assert_eq!(CLERK_ISSUER, "https://clerk.asi.com");
    assert_eq!(CLERK_AUDIENCE, "asi-app");
}

#[test]
fn signed_token_with_raw_user_is_accepted() {
    let u = verify_with_keys(&token_with_raw_user(), &signing_keys()).unwrap();
    assert_eq!(u.sub, "user_2");
    assert_eq!(u.email, "ada@example.com");
    assert_eq!(u.first_name.as_deref(), Some("Ada"));
    assert_eq!(u.last_name, None);
    assert_eq!(u.org_id.as_deref(), Some("org_9"));
}

#[test]
fn signed_token_without_raw_names_the_subject() {
    let u = verify_with_keys(&token_without_raw(), &signing_keys()).unwrap();
    assert!(subject_only(&u, "user_1"));
}

#[test]
fn expired_token_is_refused() {
    let r = verify_with_keys(&expired_token(), &signing_keys());
    assert_eq!(r.unwrap_err(), AuthError::InvalidToken("ExpiredSignature".into()));
}

#[test]
fn other_issuer_is_refused() {
    let r = verify_with_keys(&token_from_other_issuer(), &signing_keys());
    assert_eq!(r.unwrap_err(), AuthError::InvalidToken("InvalidIssuer".into()));
}

#[test]
fn other_audience_is_refused() {
    let r = verify_with_keys(&token_for_other_audience(), &signing_keys());
    assert_eq!(r.unwrap_err(), AuthError::InvalidToken("InvalidAudience".into()));
}

#[test]
fn tampered_payload_is_refused() {
    let good = token_without_raw();
    let other = expired_token();
    let g: Vec<&str> = good.split('.').collect();
    let o: Vec<&str> = other.split('.').collect();
    let tampered = format!("{}.{}.{}", g[0], o[1], g[2]);
    let r = verify_with_keys(&tampered, &signing_keys());
    assert_eq!(r.unwrap_err(), AuthError::InvalidToken("InvalidSignature".into()));
}

#[test]
fn claims_without_session_id_are_refused() {
    let r = verify_with_keys(&token_without_session_id(), &signing_keys());
    assert_eq!(r.unwrap_err(), AuthError::InvalidToken("invalid session claims".into()));
}

#[test]
fn garbage_token_is_refused_before_any_key() {
    let r = verify_with_keys("not-a-token", &signing_keys());
    assert!(matches!(r, Err(AuthError::InvalidToken(_))));
}

#[test]
fn unknown_key_id_is_refused() {
    let keys = vec![JwkKey { kid: "k2".into(), n: modulus(), e: "AQAB".into() }];
    let r = verify_with_keys(&token_without_raw(), &keys);
    assert_eq!(r.unwrap_err(), AuthError::InvalidToken("Unknown kid: k1".into()));
}

#[test]
fn undecodable_key_components_are_refused() {
    let keys = vec![JwkKey { kid: "k1".into(), n: "!!!".into(), e: "AQAB".into() }];
    let r = verify_with_keys(&token_without_raw(), &keys);
    match r {
        Err(AuthError::InvalidToken(m)) => assert!(!m.is_empty()),
        other => panic!("unexpected {:?}", other),
    }
}

#[test]
fn wrong_key_is_refused() {
    let keys = vec![JwkKey { kid: "k1".into(), n: "AQAB".into(), e: "AQAB".into() }];
    let r = verify_with_keys(&token_without_raw(), &keys);
    assert!(matches!(r, Err(AuthError::InvalidToken(_))));
}

#[test]
fn decode_error_becomes_invalid_token() {
    let r = user_from_decoded(Err("ExpiredSignature".into()));
    assert_eq!(r.unwrap_err(), AuthError::InvalidToken("ExpiredSignature".into()));
}

#[test]
fn claims_missing_session_id_are_refused() {
    let r = user_from_decoded(Ok(object(vec![("sub", text("u1"))])));
    assert_eq!(r.unwrap_err(), AuthError::InvalidToken("invalid session claims".into()));
}

#[test]
fn claims_with_raw_object_name_that_user() {
    let raw = r#"{"sub":"u2","email":"a@b.c","first_name":"A","last_name":null}"#;
    let claims = object(vec![("sub", text("u1")), ("sid", text("s")), ("__raw", text(raw))]);
    let u = user_from_claims(claims);
    assert_eq!(u.sub, "u2");
    assert_eq!(u.email, "a@b.c");
    assert_eq!(u.first_name.as_deref(), Some("A"));
    assert_eq!(u.last_name, None);
    assert_eq!(u.org_id, None);
}

#[test]
fn claims_with_raw_array_name_that_user() {
    let raw = r#"["u3","e@x.y",null,"L","o1"]"#;
    let claims = object(vec![("sub", text("u1")), ("sid", text("s")), ("__raw", text(raw))]);
    let u = user_from_claims(claims);
    assert_eq!(u.sub, "u3");
    assert_eq!(u.email, "e@x.y");
    assert_eq!(u.first_name, None);
    assert_eq!(u.last_name.as_deref(), Some("L"));
    assert_eq!(u.org_id.as_deref(), Some("o1"));
}

#[test]
fn claims_with_unparsable_raw_name_the_subject() {
    let claims = object(vec![("sub", text("u1")), ("sid", text("s")), ("__raw", text("not json"))]);
    assert!(subject_only(&user_from_claims(claims), "u1"));
}

#[test]
fn claims_with_incomplete_raw_name_the_subject() {
    let claims = object(vec![("sub", text("u1")), ("sid", text("s")), ("__raw", text(r#"{"sub":"u2"}"#))]);
    assert!(subject_only(&user_from_claims(claims), "u1"));
}

#[test]
fn claims_with_null_raw_name_the_subject() {
    let claims = object(vec![("sub", text("u1")), ("sid", text("s")), ("__raw", JsonValue::Null)]);
    assert!(subject_only(&user_from_claims(claims), "u1"));
}

#[test]
fn claims_as_array_are_read_in_order() {
    let claims = JsonValue::Array(vec![text("u5"), text("s5"), JsonValue::Null]);
    let (sub, sid, raw) = clerk_claims_of(&claims).unwrap();
    assert_eq!(sub, "u5");
    assert_eq!(sid, "s5");
    assert_eq!(raw, None);
    assert!(subject_only(&user_from_claims(claims), "u5"));
}

#[test]
fn claims_with_non_string_raw_are_refused() {
    let claims = object(vec![("sub", text("u1")), ("sid", text("s")), ("__raw", JsonValue::Bool(true))]);
    assert!(clerk_claims_of(&claims).is_none());
}

#[test]
fn raw_user_needs_an_email() {
    let doc = object(vec![("sub", text("u1"))]);
    assert!(raw_user_of(&doc).is_none());
    let doc = object(vec![("sub", text("u1")), ("email", text("x@y")), ("extra", JsonValue::Number(Some(3)))]);
    let u = raw_user_of(&doc).unwrap();
    assert_eq!(u.email, "x@y");
    assert_eq!(u.first_name, None);
}
