use gproxy::http::{Request, Response};
use gproxy::proxy::Alpn;
use gproxy::redirect::{ChallengeTable, RedirectProxy};

fn request(path: &str, host: Option<&str>) -> Request {
    Request {
        method: "GET".to_string(),
        path: path.to_string(),
        query: None,
        host: host.map(|h| h.to_string()),
        cookie: None,
    }
}

fn proxy(entries: &[(&str, &str)]) -> RedirectProxy {
    let mut challenges = ChallengeTable::new();
    for (token, key) in entries {
        challenges.insert(token.to_string(), key.to_string());
    }
    RedirectProxy { challenges }
}

fn header(name: &str, value: &str) -> (String, String) {
    (name.to_string(), value.to_string())
}

fn is_moved(r: Response, location: &str) -> bool {
    r.status == 301 && r.headers == vec![header("Location", location)] && r.body.is_none()
}

#[test]
fn published_challenges_are_answered() {
    let p = proxy(&[("tok", "tok.key"), ("other", "other.key")]);
    let r = p.request_filter(&request("/.well-known/acme-challenge/tok", Some("example.com")));
    assert_eq!(r.status, 200);
    assert_eq!(r.headers, vec![header("Content-Type", "text/plain")]);
    assert_eq!(r.body.unwrap(), b"tok.key".to_vec());
}

#[test]
fn the_challenge_prefix_may_be_repeated() {
    let p = proxy(&[("tok", "tok.key")]);
    let path = "/.well-known/acme-challenge//.well-known/acme-challenge/tok";
    assert_eq!(p.request_filter(&request(path, None)).status, 200);
}

#[test]
fn unknown_tokens_are_redirected() {
    let p = proxy(&[("tok", "tok.key")]);
    let r = p.request_filter(&request("/.well-known/acme-challenge/nope", Some("example.com")));
    assert!(is_moved(r, "https://example.com/.well-known/acme-challenge/nope"));
    let r = p.request_filter(&request("/.well-known/acme-challenge", Some("example.com")));
    assert!(is_moved(r, "https://example.com/.well-known/acme-challenge"));
}

#[test]
fn all_else_is_redirected_to_https() {
    let p = proxy(&[]);
    assert!(is_moved(p.request_filter(&request("/a/b", Some("h:8080"))), "https://h:8080/a/b"));
    assert!(is_moved(p.request_filter(&request("/a", None)), "https://localhost/a"));
}

#[test]
fn challenges_can_be_withdrawn_and_replaced() {
    let mut p = proxy(&[("tok", "one")]);
    p.challenges.insert("tok".to_string(), "two".to_string());
    assert_eq!(p.challenges.get("tok").as_deref(), Some("two"));
    p.challenges.clear();
    assert_eq!(p.challenges.get("tok"), None);
}

#[test]
fn the_named_peer_is_local() {
    let peer = proxy(&[]).upstream_peer();
    assert_eq!(peer.address, "127.0.0.1:80");
    assert!(!peer.tls);
    assert_eq!(peer.host_header, "");
    assert_eq!(peer.alpn, Alpn::Http1);
}
