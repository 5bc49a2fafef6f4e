use gproxy::config::{
    OidcSettings, RouteSource, ServerSettings, ServerSource, Settings, SettingsSource, UpstreamRoute,
    UpstreamSettings, UpstreamSource,
};
use gproxy::error::ProxyError;
use gproxy::health::HealthTable;
use gproxy::http::{Request, Response};
use gproxy::proxy::{
    alpn_for, candidate_backends, config_response, metrics_response, own_endpoint, reload_response, Alpn,
    FilterStep, GrpcProxy, Reload,
};

fn route(path: &str, backends: &[&str]) -> UpstreamRoute {
    UpstreamRoute {
        path: path.to_string(),
        backends: backends.iter().map(|b| b.to_string()).collect(),
        tls: true,
        host_header: "svc".to_string(),
        health_check: true,
        protocol: "http2".to_string(),
        oidc: None,
    }
}

fn proxy(routes: Vec<UpstreamRoute>, fallback: Option<UpstreamRoute>) -> GrpcProxy {
    GrpcProxy {
        settings: Settings {
            server: ServerSettings {
                addr: "a".to_string(),
                grace_period_sec: 1,
                log_level: "info".to_string(),
                http_addr: None,
                metrics_addr: None,
                tls: None,
                cookie_secret: None,
            },
            upstream: UpstreamSettings { routes, fallback },
        },
        counter: 0,
        healthy_backends: HealthTable::new(),
        cookie_secret: b"k".to_vec(),
    }
}

fn request(method: &str, path: &str, query: Option<&str>) -> Request {
    Request {
        method: method.to_string(),
        path: path.to_string(),
        query: query.map(|q| q.to_string()),
        host: None,
        cookie: None,
    }
}

fn header(name: &str, value: &str) -> (String, String) {
    (name.to_string(), value.to_string())
}

fn is_typed(r: &Response, status: u16, content_type: &str, body: &str) -> bool {
    r.status == status
        && r.headers == vec![header("Content-Type", content_type)]
        && r.body == Some(body.as_bytes().to_vec())
}

fn chosen(p: &mut GrpcProxy, path: &str) -> String {
    match p.upstream_peer(path) {
        Ok(peer) => peer.address,
        Err(e) => e.message().to_string(),
    }
}

#[test]
fn healthy_backends_take_turns() {
    let mut p = proxy(vec![route("/", &["a", "b", "c"])], None);
    let order: Vec<String> = (0..7).map(|_| chosen(&mut p, "/x")).collect();
    assert_eq!(order, vec!["a", "b", "c", "a", "b", "c", "a"]);
    assert_eq!(p.counter, 7);
}

#[test]
fn unhealthy_backends_are_skipped() {
    let mut p = proxy(vec![route("/", &["a", "b", "c"])], None);
    p.healthy_backends.set("b".to_string(), false);
    p.healthy_backends.set("c".to_string(), true);
    let order: Vec<String> = (0..4).map(|_| chosen(&mut p, "/x")).collect();
    assert_eq!(order, vec!["a", "c", "a", "c"]);
}

#[test]
fn with_all_unhealthy_all_are_used() {
    let mut p = proxy(vec![route("/", &["a", "b"])], None);
    p.healthy_backends.set("a".to_string(), false);
    p.healthy_backends.set("b".to_string(), false);
    assert_eq!(chosen(&mut p, "/"), "a");
    assert_eq!(chosen(&mut p, "/"), "b");
    let list = vec!["a".to_string(), "b".to_string()];
    assert_eq!(candidate_backends(&list, &p.healthy_backends), list);
    p.healthy_backends.set("b".to_string(), true);
    assert_eq!(candidate_backends(&list, &p.healthy_backends), vec!["b".to_string()]);
}

#[test]
fn the_count_wraps_round() {
    let mut p = proxy(vec![route("/", &["a", "b"])], None);
    p.counter = usize::MAX;
    assert_eq!(chosen(&mut p, "/"), "b");
    assert_eq!(p.counter, 0);
    assert_eq!(chosen(&mut p, "/"), "a");
}

#[test]
fn requests_without_a_backend_fail() {
    let mut p = proxy(vec![route("/empty", &[])], None);
    assert_eq!(p.upstream_peer("/empty/x").err(), Some(ProxyError::NoBackends));
    assert_eq!(p.upstream_peer("/other").err(), Some(ProxyError::NoRouteMatched));
    assert_eq!(p.counter, 0);
}

#[test]
fn the_peer_is_reached_as_the_route_says() {
    let mut old = route("/old", &["o:1"]);
    old.protocol = "http1".to_string();
    old.tls = false;
    old.host_header = "old.svc".to_string();
    let mut p = proxy(vec![old], Some(route("", &["n:2"])));
    let peer = p.upstream_peer("/old/x").ok().unwrap();
    assert_eq!(peer.address, "o:1");
    assert!(!peer.tls);
    assert_eq!(peer.host_header, "old.svc");
    assert_eq!(peer.alpn, Alpn::Http1);
    let peer = p.upstream_peer("/new").ok().unwrap();
    assert_eq!(peer.address, "n:2");
    assert!(peer.tls);
    assert_eq!(peer.host_header, "svc");
    assert_eq!(peer.alpn, Alpn::Http2);
    assert_eq!(alpn_for("HTTP1"), Alpn::Http2);
}

#[test]
fn own_endpoints_come_first() {
    let p = proxy(vec![], None);
    let mut ctx = p.new_ctx();
    assert!(ctx.oidc_headers.is_empty());
    match p.request_filter(&request("GET", "/health", None), &mut ctx) {
        FilterStep::Reply(r) => {
            assert!(is_typed(&r, 200, "application/json", "{\"status\":\"healthy\"}\n"))
        }
        _ => panic!("expected a reply"),
    }
    let mut step = |method, path| p.request_filter(&request(method, path, None), &mut ctx);
    assert!(matches!(step("GET", "/_config"), FilterStep::ShowConfig));
    assert!(matches!(step("POST", "/_config"), FilterStep::ReloadConfig));
    assert!(matches!(step("POST", "/health"), FilterStep::Proceed));
    assert!(matches!(step("PUT", "/_config"), FilterStep::Proceed));
    assert!(matches!(step("GET", "/health/"), FilterStep::Proceed));
}

#[test]
fn own_endpoints_need_no_state() {
    let step = |method, path| own_endpoint(&request(method, path, None));
    assert!(matches!(step("GET", "/health"), Some(FilterStep::Reply(r)) if r.status == 200));
    assert!(matches!(step("GET", "/metrics"), Some(FilterStep::Reply(r)) if r.status == 200));
    assert!(matches!(step("GET", "/_config"), Some(FilterStep::ShowConfig)));
    assert!(matches!(step("POST", "/_config"), Some(FilterStep::ReloadConfig)));
    assert!(step("POST", "/metrics").is_none());
    assert!(step("GET", "/_oidc/callback").is_none());
}

#[test]
fn the_guard_comes_after_the_own_endpoints() {
    let mut guarded = route("/", &["b"]);
    guarded.oidc = Some(OidcSettings {
        client_id: "c".to_string(),
        client_secret: "s".to_string(),
        auth_url: "https://idp/a".to_string(),
        token_url: "https://idp/t".to_string(),
        redirect_uri: "r".to_string(),
        scopes: vec![],
        attributes: vec![],
    });
    let p = proxy(vec![guarded], None);
    let mut ctx = p.new_ctx();
    assert!(matches!(
        p.request_filter(&request("GET", "/_config", None), &mut ctx),
        FilterStep::ShowConfig
    ));
    match p.request_filter(&request("GET", "/x", None), &mut ctx) {
        FilterStep::Reply(r) => assert_eq!(
            r.headers[0],
            header(
                "Location",
                "https://idp/a?response_type=code&client_id=c&redirect_uri=r&scope=&state=%2Fx"
            )
        ),
        _ => panic!("expected a redirect"),
    }
    match p.request_filter(&request("GET", "/_oidc/callback", Some("code=1&state=/x")), &mut ctx) {
        FilterStep::Exchange(r) => {
            assert_eq!(r.token_url, "https://idp/t");
            assert_eq!(r.state, "/x");
        }
        _ => panic!("expected an exchange"),
    }
}

#[test]
fn collected_headers_are_handed_over_once() {
    let p = proxy(vec![], None);
    let mut ctx = p.new_ctx();
    ctx.oidc_headers.push(header("X", "1"));
    assert_eq!(p.upstream_request_filter(&mut ctx), vec![header("X", "1")]);
    assert!(p.upstream_request_filter(&mut ctx).is_empty());
}

#[test]
fn the_metrics_of_the_process_are_shown() {
    let counter = prometheus::IntCounter::new("gproxy_test_total", "Counted in a test.").unwrap();
    prometheus::register(Box::new(counter.clone())).unwrap();
    counter.inc_by(41);
    counter.inc();
    let p = proxy(vec![], None);
    let mut ctx = p.new_ctx();
    match p.request_filter(&request("GET", "/metrics", None), &mut ctx) {
        FilterStep::Reply(r) => {
            assert_eq!(r.status, 200);
            assert_eq!(r.headers, vec![header("Content-Type", "text/plain; version=0.0.4")]);
            let text = String::from_utf8(r.body.unwrap()).unwrap();
            assert!(text.contains("gproxy_test_total 42\n"));
        }
        _ => panic!("expected a reply"),
    }
}

#[test]
fn metrics_and_settings_are_answered() {
    let r = metrics_response(Some(b"up 1\n".to_vec()));
    assert!(is_typed(&r, 200, "text/plain; version=0.0.4", "up 1\n"));
    let r = metrics_response(None);
    assert!(is_typed(&r, 500, "text/plain", "Failed to encode metrics"));
    let r = config_response(b"{}".to_vec());
    assert!(is_typed(&r, 200, "application/json", "{}"));
}

#[test]
fn every_end_of_a_reload_is_answered() {
    let r = reload_response(Reload::Updated);
    assert!(is_typed(&r, 200, "application/json", "{\"status\":\"updated\"}\n"));
    let r = reload_response(Reload::LockFailed);
    assert!(is_typed(&r, 500, "application/json", "{\"error\":\"Internal lock error\"}\n"));
    let r = reload_response(Reload::Invalid("EOF".to_string()));
    assert!(is_typed(&r, 400, "application/json", "{\"error\":\"Invalid JSON: EOF\"}\n"));
}

#[test]
fn new_settings_take_effect_and_all_else_stays() {
    let mut p = proxy(vec![route("/", &["a", "b"])], None);
    p.healthy_backends.set("d".to_string(), false);
    assert_eq!(chosen(&mut p, "/"), "a");
    p.reload(SettingsSource {
        server: ServerSource {
            addr: "z".to_string(),
            grace_period_sec: 2,
            log_level: "debug".to_string(),
            http_addr: None,
            metrics_addr: None,
            tls: None,
            cookie_secret: Some("ignored until restart".to_string()),
        },
        upstream: UpstreamSource {
            routes: vec![RouteSource {
                path: "/".to_string(),
                backends: vec!["c".to_string(), "d".to_string(), "e".to_string()],
                tls: false,
                host_header: "h".to_string(),
                health_check: None,
                protocol: None,
                oidc: None,
            }],
            fallback: None,
        },
    });
    assert_eq!(p.settings.server.addr, "z");
    assert_eq!(p.counter, 1);
    assert_eq!(p.cookie_secret, b"k".to_vec());
    assert_eq!(chosen(&mut p, "/"), "e");
    assert_eq!(chosen(&mut p, "/"), "c");
}
