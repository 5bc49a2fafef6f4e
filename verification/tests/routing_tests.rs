use gproxy::config::{ServerSettings, Settings, UpstreamRoute, UpstreamSettings};
use gproxy::routing::find_route_for_path;

fn route(path: &str, host: &str) -> UpstreamRoute {
    UpstreamRoute {
        path: path.to_string(),
        backends: vec![],
        tls: false,
        host_header: host.to_string(),
        health_check: true,
        protocol: "http2".to_string(),
        oidc: None,
    }
}

fn settings(routes: Vec<UpstreamRoute>, fallback: Option<UpstreamRoute>) -> Settings {
    Settings {
        server: ServerSettings {
            addr: "a".to_string(),
            grace_period_sec: 1,
            log_level: "info".to_string(),
            http_addr: None,
            metrics_addr: None,
            tls: None,
            cookie_secret: None,
        },
        upstream: UpstreamSettings { routes, fallback },
    }
}

fn host_for<'a>(s: &'a Settings, path: &str) -> Option<&'a str> {
    find_route_for_path(s, path).map(|r| r.host_header.as_str())
}

#[test]
fn the_first_matching_prefix_wins() {
    let s = settings(vec![route("/api", "one"), route("/api/v2", "two"), route("/", "three")], None);
    assert_eq!(host_for(&s, "/api/v2/x"), Some("one"));
    assert_eq!(host_for(&s, "/apis"), Some("one"));
    assert_eq!(host_for(&s, "/ap"), Some("three"));
    assert_eq!(host_for(&s, ""), None);
}

#[test]
fn the_fallback_serves_the_rest() {
    let s = settings(vec![route("/api", "one")], Some(route("/other", "rest")));
    assert_eq!(host_for(&s, "/api"), Some("one"));
    assert_eq!(host_for(&s, "/x"), Some("rest"));
    assert_eq!(host_for(&s, ""), Some("rest"));
}

#[test]
fn without_a_match_there_is_no_route() {
    let s = settings(vec![route("/api", "one")], None);
    assert_eq!(host_for(&s, "/x"), None);
    assert_eq!(host_for(&settings(vec![], None), "/"), None);
}

#[test]
fn prefixes_are_compared_by_characters() {
    let s = settings(vec![route("/\u{e9}", "accent")], None);
    assert_eq!(host_for(&s, "/\u{e9}t\u{e9}"), Some("accent"));
    assert_eq!(host_for(&s, "/e"), None);
}
