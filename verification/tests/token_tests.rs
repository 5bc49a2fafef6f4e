use gproxy::config::OidcAttribute;
use gproxy::tokens::{
    decode_jwt_claims, exchanged_id_token, header_value, id_token_of, map_claims, sign_session_jwt,
    sign_session_jwt_at, verify_session_jwt, ClaimValue, TokenReply,
};
use serde_json::{Number, Value};

fn now() -> u64 {
    chrono::Utc::now().timestamp() as u64
}

fn object(members: &[(&str, Value)]) -> Value {
    let mut map = serde_json::Map::new();
    for (name, value) in members {
        map.insert(name.to_string(), value.clone());
    }
    Value::Object(map)
}

fn text(s: &str) -> Value {
    Value::String(s.to_string())
}

fn claims() -> Value {
    object(&[
        ("sub", text("alice")),
        ("level", Value::from(3u64)),
        ("admin", Value::Bool(true)),
        ("ratio", Value::Number(Number::from_f64(0.1).unwrap())),
        ("groups", Value::Array(vec![text("a"), text("b")])),
        ("aud", text("someone-else")),
    ])
}

fn id_token(claims: &Value, secret: &[u8]) -> String {
    let key = jsonwebtoken::EncodingKey::from_secret(secret);
    jsonwebtoken::encode(&jsonwebtoken::Header::default(), claims, &key).unwrap()
}

#[test]
fn sessions_give_back_the_claims() {
    let t = now();
    let token = sign_session_jwt_at(&claims(), b"secret", 3600, t).unwrap();
    let read = verify_session_jwt(&token, b"secret").unwrap();
    let mut expected = claims();
    let map = expected.as_object_mut().unwrap();
    map.insert("exp".to_string(), Value::from(t + 3600));
    map.insert("iat".to_string(), Value::from(t));
    assert_eq!(read, expected);
}

#[test]
fn sessions_replace_the_times_of_the_claims() {
    let t = now();
    let stale = object(&[("exp", Value::from(1u64)), ("iat", text("x")), ("sub", text("bob"))]);
    let token = sign_session_jwt_at(&stale, b"secret", 60, t).unwrap();
    let read = verify_session_jwt(&token, b"secret").unwrap();
    assert_eq!(read.get("exp"), Some(&Value::from(t + 60)));
    assert_eq!(read.get("iat"), Some(&Value::from(t)));
    assert_eq!(read.get("sub"), Some(&text("bob")));
}

#[test]
fn sessions_start_now() {
    let before = now();
    let token = sign_session_jwt(&claims(), b"secret", 3600).unwrap();
    let after = now();
    let read = verify_session_jwt(&token, b"secret").unwrap();
    let iat = read.get("iat").unwrap().as_u64().unwrap();
    assert!(before <= iat && iat <= after);
    assert_eq!(read.get("exp").unwrap().as_u64().unwrap(), iat + 3600);
}

#[test]
fn sessions_of_another_secret_are_refused() {
    let token = sign_session_jwt(&claims(), b"secret", 3600).unwrap();
    let error = verify_session_jwt(&token, b"other").unwrap_err();
    assert_eq!(error, "Session JWT validation failed: InvalidSignature");
}

#[test]
fn sessions_run_out() {
    let token = sign_session_jwt_at(&claims(), b"secret", 10, now() - 3600).unwrap();
    let error = verify_session_jwt(&token, b"secret").unwrap_err();
    assert_eq!(error, "Session JWT validation failed: ExpiredSignature");
}

#[test]
fn claims_that_are_no_object_are_signed_as_they_are() {
    let token = sign_session_jwt(&Value::Array(vec![]), b"secret", 10).unwrap();
    assert_eq!(token.split('.').count(), 3);
    assert!(verify_session_jwt(&token, b"secret").is_err());
}

#[test]
fn id_tokens_are_read_whoever_signed_them() {
    let c = object(&[("sub", text("alice")), ("exp", Value::from(now() + 100)), ("aud", text("me"))]);
    let token = id_token(&c, b"a key the proxy does not know");
    assert_eq!(decode_jwt_claims(&token).unwrap(), c);
}

#[test]
fn the_signature_of_an_id_token_has_no_influence() {
    let c = object(&[("sub", text("alice")), ("exp", Value::from(now() + 100))]);
    let token = id_token(&c, b"k");
    let message = token.rsplit_once('.').unwrap().0;
    for signature in ["", "AAAA", "no-base64-!", "_"] {
        assert_eq!(decode_jwt_claims(&format!("{}.{}", message, signature)).unwrap(), c);
    }
}

/// An array of arrays, so many levels deep.
fn nested(levels: usize) -> Value {
    (0..levels).fold(Value::Null, |inner, _| Value::Array(vec![inner]))
}

#[test]
fn claims_nest_as_deep_as_the_parser_goes() {
    let reads = |c: Value| {
        let token = sign_session_jwt(&c, b"secret", 3600).unwrap();
        verify_session_jwt(&token, b"secret").is_ok()
    };
    for name in ["groups", "aud", "iss"] {
        assert!(reads(object(&[(name, nested(126))])));
        assert!(!reads(object(&[(name, nested(127))])));
    }
    assert!(!reads(object(&[("sub", nested(1))])));
    assert!(!reads(object(&[("sub", Value::Array(vec![]))])));
    assert!(!reads(object(&[("nbf", nested(1))])));
    assert!(reads(object(&[("nbf", Value::Array(vec![]))])));
    assert!(reads(object(&[("nbf", object(&[]))])));
}

#[test]
fn ordinary_claims_are_read_back_whatever_their_type() {
    let many = (0..200).map(|i| object(&[("n", Value::from(i as u64))])).collect();
    let c = object(&[
        ("email_verified", Value::Bool(false)),
        ("groups", Value::Array(vec![text("a"), Value::Null])),
        ("address", object(&[("street", text("[{\"x\"}]"))])),
        ("balance", Value::from(-12i64)),
        ("nickname", Value::Null),
        ("sub", Value::Bool(true)),
        ("nbf", Value::from(-1i64)),
        ("aud", object(&[("a", Value::Array(vec![]))])),
        ("deep", nested(126)),
        ("many", Value::Array(many)),
        ("odd", Value::Array(vec![text("\\\"[{[{\\"), text(&"[".repeat(300))])),
    ]);
    let t = now();
    let token = sign_session_jwt_at(&c, b"secret", 3600, t).unwrap();
    let mut expected = c;
    let map = expected.as_object_mut().unwrap();
    map.insert("exp".to_string(), Value::from(t + 3600));
    map.insert("iat".to_string(), Value::from(t));
    assert_eq!(verify_session_jwt(&token, b"secret").unwrap(), expected);
}

#[test]
fn sessions_are_good_for_a_minute_after_they_expire() {
    let t = now();
    let token = |exp: u64| sign_session_jwt_at(&claims(), b"secret", 0, exp).unwrap();
    assert!(verify_session_jwt(&token(t - 50), b"secret").is_ok());
    assert!(verify_session_jwt(&token(t - 70), b"secret").is_err());
}

#[test]
fn tokens_are_made_of_unreserved_characters() {
    let token = sign_session_jwt(&claims(), b"secret", 3600).unwrap();
    assert!(token.chars().all(|c| c.is_ascii_alphanumeric() || "-_.".contains(c)));
}

#[test]
fn expired_or_broken_id_tokens_are_refused() {
    let c = object(&[("sub", text("alice")), ("exp", Value::from(now() - 1000))]);
    assert_eq!(
        decode_jwt_claims(&id_token(&c, b"k")).unwrap_err(),
        "JWT decode error: ExpiredSignature"
    );
    let error = decode_jwt_claims("no token").unwrap_err();
    assert_eq!(error, "JWT decode error: InvalidToken");
    let c = object(&[("sub", text("alice"))]);
    let error = decode_jwt_claims(&id_token(&c, b"k")).unwrap_err();
    assert!(error.starts_with("JWT decode error: "));
}

#[test]
fn claims_become_headers() {
    let attribute = |claim: &str, header: &str| OidcAttribute {
        claim: claim.to_string(),
        header: header.to_string(),
    };
    let attributes = vec![
        attribute("sub", "X-User"),
        attribute("missing", "X-Missing"),
        attribute("level", "X-Level"),
        attribute("admin", "X-Admin"),
        attribute("groups", "X-Groups"),
        attribute("sub", "X-Again"),
    ];
    let mut headers = vec![("X-First".to_string(), "1".to_string())];
    map_claims(&attributes, &claims(), &mut headers);
    let expected: Vec<(String, String)> = [
        ("X-First", "1"),
        ("X-User", "alice"),
        ("X-Level", "3"),
        ("X-Admin", "true"),
        ("X-Groups", "[\"a\",\"b\"]"),
        ("X-Again", "alice"),
    ]
    .iter()
    .map(|(n, v)| (n.to_string(), v.to_string()))
    .collect();
    assert_eq!(headers, expected);
    assert_eq!(header_value(ClaimValue::Text("t".to_string())), "t");
    assert_eq!(header_value(ClaimValue::Json("[]".to_string())), "[]");
}

#[test]
fn claims_that_are_no_object_give_no_headers() {
    let attributes = vec![OidcAttribute { claim: "sub".to_string(), header: "X".to_string() }];
    let mut headers = vec![];
    map_claims(&attributes, &text("sub"), &mut headers);
    map_claims(&attributes, &Value::Array(vec![text("sub")]), &mut headers);
    assert!(headers.is_empty());
}

#[test]
fn the_id_token_is_taken_from_the_reply() {
    assert_eq!(id_token_of(&object(&[("id_token", text("t"))])), Ok("t".to_string()));
    let none = Err("No id_token in token response".to_string());
    assert_eq!(id_token_of(&object(&[("id_token", Value::from(1u64))])), none);
    assert_eq!(id_token_of(&object(&[("access_token", text("t"))])), none);
    assert_eq!(id_token_of(&Value::Null), none);
}

#[test]
fn every_end_of_an_exchange_is_told() {
    let body = TokenReply::Body(object(&[("id_token", text("t"))]));
    assert_eq!(exchanged_id_token(body), Ok("t".to_string()));
    assert_eq!(
        exchanged_id_token(TokenReply::Body(Value::Null)),
        Err("No id_token in token response".to_string())
    );
    assert_eq!(
        exchanged_id_token(TokenReply::RequestFailed("timeout".to_string())),
        Err("Token request failed: timeout".to_string())
    );
    assert_eq!(
        exchanged_id_token(TokenReply::NotJson("eof".to_string())),
        Err("Failed to parse token response: eof".to_string())
    );
}
