use gproxy::auth::{
    begin_callback, build_auth_redirect_url, extract_cookie, find_oidc_for_path, find_param,
    finish_callback, handle_oidc, open_session, pass_guard, resolve_cookie_secret, secret_of, sign_in, sign_in_response,
    token_request, OidcStep, SignIn,
};
use gproxy::config::{
    OidcAttribute, OidcSettings, ServerSettings, Settings, UpstreamRoute, UpstreamSettings,
};
use gproxy::http::{Request, Response};
use gproxy::tokens::{sign_session_jwt, sign_session_jwt_at, verify_session_jwt};
use serde_json::Value;

fn text(s: &str) -> Value {
    Value::String(s.to_string())
}

fn object(members: &[(&str, Value)]) -> Value {
    let mut map = serde_json::Map::new();
    for (name, value) in members {
        map.insert(name.to_string(), value.clone());
    }
    Value::Object(map)
}

fn oidc() -> OidcSettings {
    OidcSettings {
        client_id: "my app".to_string(),
        client_secret: "hush&hush".to_string(),
        auth_url: "https://idp.example.com/authorize".to_string(),
        token_url: "https://idp.example.com/token".to_string(),
        redirect_uri: "https://proxy.example.com/_oidc/callback".to_string(),
        scopes: vec!["openid".to_string(), "email".to_string()],
        attributes: vec![
            OidcAttribute { claim: "email".to_string(), header: "X-Auth-Email".to_string() },
            OidcAttribute { claim: "level".to_string(), header: "X-Auth-Level".to_string() },
        ],
    }
}

fn route(path: &str, oidc: Option<OidcSettings>) -> UpstreamRoute {
    UpstreamRoute {
        path: path.to_string(),
        backends: vec!["b".to_string()],
        tls: false,
        host_header: String::new(),
        health_check: true,
        protocol: "http2".to_string(),
        oidc,
    }
}

fn settings() -> Settings {
    Settings {
        server: ServerSettings {
            addr: "a".to_string(),
            grace_period_sec: 1,
            log_level: "info".to_string(),
            http_addr: None,
            metrics_addr: None,
            tls: None,
            cookie_secret: None,
        },
        upstream: UpstreamSettings {
            routes: vec![route("/private", Some(oidc())), route("/public", None)],
            fallback: None,
        },
    }
}

fn get(path: &str, query: Option<&str>, cookie: Option<&str>) -> Request {
    Request {
        method: "GET".to_string(),
        path: path.to_string(),
        query: query.map(|s| s.to_string()),
        host: None,
        cookie: cookie.map(|s| s.to_string()),
    }
}

fn header(name: &str, value: &str) -> (String, String) {
    (name.to_string(), value.to_string())
}

fn is_text(r: &Response, status: u16, body: &str) -> bool {
    r.status == status
        && r.headers == vec![header("Content-Type", "text/plain")]
        && r.body == Some(body.as_bytes().to_vec())
}

const SIGN_IN: &str = "https://idp.example.com/authorize?response_type=code&client_id=my%20app&redirect_uri=https%3A%2F%2Fproxy.example.com%2F_oidc%2Fcallback&scope=openid%20email&state=%2Fprivate%2Fx%3D%C3%A9";

#[test]
fn cookies_are_found_by_name() {
    let found = |header: &str, name: &str| extract_cookie(header, name);
    assert_eq!(found("a=1; b=2", "a").as_deref(), Some("1"));
    assert_eq!(found("a=1; b=2", "b").as_deref(), Some("2"));
    assert_eq!(found("a=1;b=2;a=3", "a").as_deref(), Some("1"));
    assert_eq!(found("  a=x=y ;", "a").as_deref(), Some("x=y"));
    assert_eq!(found("ab=1; a =2; a=3", "a").as_deref(), Some("3"));
    assert_eq!(found("a=", "a").as_deref(), Some(""));
    assert_eq!(found("a", "a"), None);
    assert_eq!(found("", "a"), None);
    assert_eq!(found("=v", "").as_deref(), Some("v"));
    assert_eq!(found("a=\u{e9} ", "a").as_deref(), Some("\u{e9}"));
}

#[test]
fn the_session_cookie_is_read_back() {
    let response = sign_in_response("/x", SignIn::Session("h.p.s".to_string()));
    let set_cookie = &response.headers[2].1;
    let sent_back = set_cookie.split(';').next().unwrap();
    assert_eq!(extract_cookie(sent_back, "gproxy_session").as_deref(), Some("h.p.s"));
}

#[test]
fn the_sign_in_url_is_percent_encoded() {
    assert_eq!(build_auth_redirect_url(&oidc(), "/private/x=\u{e9}"), SIGN_IN);
    let mut plain = oidc();
    plain.scopes = vec![];
    plain.client_id = "AZaz09-._~".to_string();
    assert_eq!(
        build_auth_redirect_url(&plain, ""),
        "https://idp.example.com/authorize?response_type=code&client_id=AZaz09-._~&redirect_uri=https%3A%2F%2Fproxy.example.com%2F_oidc%2Fcallback&scope=&state="
    );
}

#[test]
fn the_sign_in_url_is_a_form() {
    let url = build_auth_redirect_url(&oidc(), "/a b&c=d+\u{e9}%");
    let query = url.split_once('?').unwrap().1;
    let pairs: Vec<(String, String)> =
        url::form_urlencoded::parse(query.as_bytes()).into_owned().collect();
    assert_eq!(
        pairs,
        vec![
            header("response_type", "code"),
            header("client_id", "my app"),
            header("redirect_uri", "https://proxy.example.com/_oidc/callback"),
            header("scope", "openid email"),
            header("state", "/a b&c=d+\u{e9}%"),
        ]
    );
}

#[test]
fn the_last_value_of_a_parameter_counts() {
    let pairs = vec![header("a", "1"), header("b", "2"), header("a", "3")];
    assert_eq!(find_param(&pairs, "a").as_deref(), Some("3"));
    assert_eq!(find_param(&pairs, "b").as_deref(), Some("2"));
    assert_eq!(find_param(&pairs, "c"), None);
}

#[test]
fn protection_goes_by_route() {
    let s = settings();
    assert_eq!(find_oidc_for_path(&s, "/private/x").unwrap().client_id, "my app");
    assert!(find_oidc_for_path(&s, "/public").is_none());
    assert!(find_oidc_for_path(&s, "/nowhere").is_none());
}

#[test]
fn the_code_is_exchanged_with_a_form() {
    let r = token_request(&oidc(), "c0de", "/private".to_string());
    assert_eq!(r.token_url, "https://idp.example.com/token");
    assert_eq!(r.state, "/private");
    assert_eq!(
        r.form,
        vec![
            header("grant_type", "authorization_code"),
            header("code", "c0de"),
            header("redirect_uri", "https://proxy.example.com/_oidc/callback"),
            header("client_id", "my app"),
            header("client_secret", "hush&hush"),
        ]
    );
}

fn callback(query: Option<&str>) -> OidcStep {
    let mut headers = vec![];
    let step = handle_oidc(&get("/_oidc/callback", query, None), &settings(), b"k", &mut headers);
    assert!(headers.is_empty());
    step
}

#[test]
fn a_callback_leads_to_an_exchange() {
    match callback(Some("code=a%2Bb&state=%2Fprivate%2Fx")) {
        OidcStep::Exchange(r) => {
            assert_eq!(r.state, "/private/x");
            assert_eq!(r.form[1], header("code", "a+b"));
        }
        _ => panic!("expected an exchange"),
    }
}

#[test]
fn a_callback_without_a_code_is_refused() {
    for query in [None, Some(""), Some("state=%2Fprivate"), Some("Code=x")] {
        match callback(query) {
            OidcStep::Reply(r) => assert!(is_text(&r, 400, "Missing 'code' parameter")),
            _ => panic!("expected a reply"),
        }
    }
}

#[test]
fn a_callback_for_an_unprotected_route_is_refused() {
    for query in ["code=x&state=%2Fpublic", "code=x", "code=x&state=%2Fprivate&state=%2F"] {
        match callback(Some(query)) {
            OidcStep::Reply(r) => {
                assert!(is_text(&r, 400, "No OIDC configuration for the originating route"))
            }
            _ => panic!("expected a reply"),
        }
    }
}

#[test]
fn parameters_decide_the_callback() {
    match begin_callback(&settings(), &vec![header("code", "x"), header("state", "/private")]) {
        OidcStep::Exchange(r) => assert_eq!(r.token_url, "https://idp.example.com/token"),
        _ => panic!("expected an exchange"),
    }
}

#[test]
fn only_a_get_is_a_callback() {
    let mut request = get("/_oidc/callback", Some("code=x&state=%2Fprivate"), None);
    request.method = "POST".to_string();
    let mut headers = vec![];
    assert!(matches!(handle_oidc(&request, &settings(), b"k", &mut headers), OidcStep::Proceed));
}

fn redirects_to(step: &OidcStep, location: &str) -> bool {
    match step {
        OidcStep::Reply(r) => {
            r.status == 302
                && r.headers == vec![header("Location", location), header("Content-Length", "0")]
                && r.body == Some(vec![])
        }
        _ => false,
    }
}

#[test]
fn protected_paths_need_a_session() {
    for cookie in [None, Some("other=1"), Some("gproxy_session=rubbish")] {
        let mut headers = vec![];
        let request = get("/private/x=\u{e9}", None, cookie);
        let step = handle_oidc(&request, &settings(), b"k", &mut headers);
        assert!(redirects_to(&step, SIGN_IN));
        assert!(headers.is_empty());
    }
}

#[test]
fn a_session_of_another_proxy_does_not_count() {
    let token = sign_session_jwt(&object(&[("email", text("a@b"))]), b"other", 3600).unwrap();
    let cookie = format!("gproxy_session={}", token);
    let mut headers = vec![];
    let request = get("/private/x=\u{e9}", None, Some(&cookie));
    assert!(redirects_to(&handle_oidc(&request, &settings(), b"k", &mut headers), SIGN_IN));
}

#[test]
fn a_session_lets_the_request_pass_with_its_claims() {
    let claims = object(&[("email", text("a@b")), ("level", Value::from(4u64))]);
    let token = sign_session_jwt(&claims, b"k", 3600).unwrap();
    let cookie = format!("theme=dark; gproxy_session={}", token);
    let mut headers = vec![header("X-Before", "1")];
    let step = handle_oidc(&get("/private", None, Some(&cookie)), &settings(), b"k", &mut headers);
    assert!(matches!(step, OidcStep::Proceed));
    assert_eq!(
        headers,
        vec![header("X-Before", "1"), header("X-Auth-Email", "a@b"), header("X-Auth-Level", "4")]
    );
}

#[test]
fn a_session_that_is_over_does_not_pass() {
    let claims = object(&[("email", text("a@b"))]);
    let step_at = |issued: u64| {
        let token = sign_session_jwt_at(&claims, b"k", 3600, issued).unwrap();
        let cookie = format!("gproxy_session={}", token);
        let mut headers = vec![];
        let request = get("/private/x=\u{e9}", None, Some(&cookie));
        (handle_oidc(&request, &settings(), b"k", &mut headers), headers.len())
    };
    let (step, collected) = step_at(now() - 3600 - 70);
    assert!(redirects_to(&step, SIGN_IN));
    assert_eq!(collected, 0);
    let (step, collected) = step_at(now() - 3600 - 50);
    assert!(matches!(step, OidcStep::Proceed));
    assert_eq!(collected, 1);
}

#[test]
fn the_cookie_of_a_sign_in_passes_the_guard() {
    let claims = object(&[
        ("email", text("a@b")),
        ("email_verified", Value::Bool(true)),
        ("level", Value::from(-2i64)),
        ("groups", Value::Array(vec![text("x"), object(&[("y", Value::Null)])])),
        ("aud", Value::Array(vec![text("me")])),
        ("iss", object(&[("odd", text("issuer"))])),
        ("nbf", text("never")),
        ("sub", Value::from(7u64)),
        ("exp", Value::from(now() + 60)),
    ]);
    let key = jsonwebtoken::EncodingKey::from_secret(b"idp");
    let id = jsonwebtoken::encode(&jsonwebtoken::Header::default(), &claims, &key).unwrap();
    let answer = finish_callback("/private", Ok(id), b"k");
    let cookie = answer.headers[2].1.split(';').next().unwrap().to_string();
    let mut headers = vec![];
    let step = handle_oidc(&get("/private", None, Some(&cookie)), &settings(), b"k", &mut headers);
    assert!(matches!(step, OidcStep::Proceed));
    assert_eq!(headers, vec![header("X-Auth-Email", "a@b"), header("X-Auth-Level", "-2")]);
}

#[test]
fn unprotected_paths_proceed() {
    let mut headers = vec![];
    for path in ["/public", "/nowhere"] {
        let step = handle_oidc(&get(path, None, None), &settings(), b"k", &mut headers);
        assert!(matches!(step, OidcStep::Proceed));
    }
    assert!(headers.is_empty());
}

#[test]
fn the_guard_goes_by_the_verification() {
    let mut headers = vec![];
    let step = pass_guard(&oidc(), "/private/x=\u{e9}", Err("late".to_string()), &mut headers);
    assert!(redirects_to(&step, SIGN_IN));
    let step = pass_guard(&oidc(), "/private", Ok(object(&[("email", text("e"))])), &mut headers);
    assert!(matches!(step, OidcStep::Proceed));
    assert_eq!(headers, vec![header("X-Auth-Email", "e")]);
}

fn id_token(exp: u64) -> String {
    let claims = object(&[("email", text("a@b")), ("exp", Value::from(exp))]);
    let key = jsonwebtoken::EncodingKey::from_secret(b"idp");
    jsonwebtoken::encode(&jsonwebtoken::Header::default(), &claims, &key).unwrap()
}

fn now() -> u64 {
    chrono::Utc::now().timestamp() as u64
}

#[test]
fn a_sign_in_ends_with_a_session_cookie() {
    let r = finish_callback("/private/x", Ok(id_token(now() + 60)), b"k");
    assert_eq!(r.status, 302);
    assert_eq!(r.headers[0], header("Location", "/private/x"));
    assert_eq!(r.headers[1], header("Content-Length", "0"));
    assert_eq!(r.headers[2].0, "Set-Cookie");
    assert_eq!(r.headers.len(), 3);
    assert_eq!(r.body, Some(vec![]));
    let cookie = &r.headers[2].1;
    let token = cookie
        .strip_prefix("gproxy_session=")
        .unwrap()
        .strip_suffix("; Path=/; HttpOnly; SameSite=Lax; Max-Age=3600")
        .unwrap();
    let claims = verify_session_jwt(token, b"k").unwrap();
    assert_eq!(claims.get("email"), Some(&text("a@b")));
    let exp = claims.get("exp").unwrap().as_u64().unwrap();
    assert!(now() + 3590 <= exp && exp <= now() + 3600);
}

#[test]
fn decoded_claims_open_a_session() {
    match open_session(Ok(object(&[("email", text("a@b"))])), b"k") {
        SignIn::Session(token) => {
            let claims = verify_session_jwt(&token, b"k").unwrap();
            assert_eq!(claims.get("email"), Some(&text("a@b")));
        }
        _ => panic!("expected a session"),
    }
    let end = open_session(Err("late".to_string()), b"k");
    assert!(matches!(end, SignIn::DecodeFailed(reason) if reason == "late"));
}

#[test]
fn failed_sign_ins_are_told() {
    let r = finish_callback("/x", Err("Token request failed: no".to_string()), b"k");
    assert!(is_text(&r, 502, "Token exchange failed: Token request failed: no"));
    let r = finish_callback("/x", Ok("rubbish".to_string()), b"k");
    assert!(is_text(&r, 502, "ID token decode failed: JWT decode error: InvalidToken"));
    let r = finish_callback("/x", Ok(id_token(now() - 1000)), b"k");
    assert!(is_text(&r, 502, "ID token decode failed: JWT decode error: ExpiredSignature"));
    assert!(is_text(&sign_in_response("/x", SignIn::SignFailed), 500, "Internal error"));
    assert!(matches!(sign_in(Err("e".to_string()), b"k"), SignIn::ExchangeFailed(e) if e == "e"));
    assert!(matches!(sign_in(Ok(id_token(now() + 60)), b"k"), SignIn::Session(_)));
}

fn with_secret(text: &str) -> Settings {
    let mut s = settings();
    s.server.cookie_secret = Some(text.to_string());
    s
}

#[test]
fn the_secret_is_what_the_setting_encodes() {
    let zeros = "AAAAAAAAAAAAAAAAAAAAAAAAAAAAAAAAAAAAAAAAAAA=";
    assert_eq!(resolve_cookie_secret(&with_secret(zeros)), vec![0u8; 32]);
    let counting = "AAECAwQFBgcICQoLDA0ODxAREhMUFRYXGBkaGxwdHh8=";
    assert_eq!(resolve_cookie_secret(&with_secret(counting)), (0u8..32).collect::<Vec<u8>>());
    let ones = "//////////////////////////////////////////8=";
    assert_eq!(resolve_cookie_secret(&with_secret(ones)), vec![255u8; 32]);
}

#[test]
fn a_text_of_no_32_bytes_is_its_own_secret() {
    // Too short, too long, padded wrongly, with stray bits, or no Base64 at all.
    for text in [
        "",
        "c2Vj",
        "c2Vj\u{e9}",
        "AAAAAAAAAAAAAAAAAAAAAAAAAAAAAAAAAAAAAAAAAAA",
        "AAAAAAAAAAAAAAAAAAAAAAAAAAAAAAAAAAAAAAAAAA==",
        "AAAAAAAAAAAAAAAAAAAAAAAAAAAAAAAAAAAAAAAAAAAA",
        "AAAAAAAAAAAAAAAAAAAAAAAAAAAAAAAAAAAAAAAAAAB=",
        "AAAAAAAAAAAAAAAAAAAAAAAAAAAAAAAAAAAAAAAAAA-=",
    ] {
        assert_eq!(resolve_cookie_secret(&with_secret(text)), text.as_bytes().to_vec());
    }
}

#[test]
fn drawn_bytes_are_the_secret_where_none_is_configured() {
    assert_eq!(secret_of(&settings(), vec![1, 2, 3]), vec![1, 2, 3]);
    assert_eq!(secret_of(&with_secret("x"), vec![1, 2, 3]), b"x".to_vec());
}

#[test]
fn a_missing_secret_is_drawn_at_random() {
    let first = resolve_cookie_secret(&settings());
    let second = resolve_cookie_secret(&settings());
    assert_eq!(first.len(), 32);
    assert_eq!(second.len(), 32);
    assert_ne!(first, second);
    assert_ne!(first, vec![0u8; 32]);
}
