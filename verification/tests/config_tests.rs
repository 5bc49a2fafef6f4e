use gproxy::config::{
    default_cache_dir, default_health_check, default_protocol, default_scopes, default_staging,
    AcmeSource, OidcAttribute, OidcSource, RouteSource, ServerSource, Settings, SettingsSource,
    TlsSource, UpstreamSource,
};

fn acme(staging: Option<bool>, cache_dir: Option<&str>) -> AcmeSource {
    AcmeSource {
        enabled: true,
        domains: vec!["example.com".to_string()],
        email: "ops@example.com".to_string(),
        staging,
        cache_dir: cache_dir.map(|s| s.to_string()),
        directory_url: None,
    }
}

fn oidc(scopes: Option<Vec<String>>, attributes: Option<Vec<OidcAttribute>>) -> OidcSource {
    OidcSource {
        client_id: "id".to_string(),
        client_secret: "secret".to_string(),
        auth_url: "https://idp/authorize".to_string(),
        token_url: "https://idp/token".to_string(),
        redirect_uri: "https://proxy/_oidc/callback".to_string(),
        scopes,
        attributes,
    }
}

fn route(path: &str, health_check: Option<bool>, protocol: Option<&str>, oidc: Option<OidcSource>) -> RouteSource {
    RouteSource {
        path: path.to_string(),
        backends: vec!["127.0.0.1:1".to_string()],
        tls: false,
        host_header: "h".to_string(),
        health_check,
        protocol: protocol.map(|s| s.to_string()),
        oidc,
    }
}

fn source(tls: Option<TlsSource>, routes: Vec<RouteSource>, fallback: Option<RouteSource>) -> SettingsSource {
    SettingsSource {
        server: ServerSource {
            addr: "0.0.0.0:8080".to_string(),
            grace_period_sec: 7,
            log_level: "info".to_string(),
            http_addr: Some("0.0.0.0:81".to_string()),
            metrics_addr: None,
            tls,
            cookie_secret: Some("s".to_string()),
        },
        upstream: UpstreamSource { routes, fallback },
    }
}

#[test]
fn defaults_have_their_documented_values() {
    assert!(default_staging());
    assert_eq!(default_cache_dir(), "certs");
    assert_eq!(default_scopes(), vec!["openid".to_string()]);
    assert!(default_health_check());
    assert_eq!(default_protocol(), "http2");
}

#[test]
fn absent_values_take_their_defaults() {
    let s = Settings::new(source(
        Some(TlsSource { enabled: true, cert_path: None, key_path: None, acme: Some(acme(None, None)) }),
        vec![route("/a", None, None, Some(oidc(None, None)))],
        None,
    ));
    let acme = s.server.tls.unwrap().acme.unwrap();
    assert!(acme.staging);
    assert_eq!(acme.cache_dir, "certs");
    let r = &s.upstream.routes[0];
    assert!(r.health_check);
    assert_eq!(r.protocol, "http2");
    let o = r.oidc.as_ref().unwrap();
    assert_eq!(o.scopes, vec!["openid".to_string()]);
    assert!(o.attributes.is_empty());
    assert!(s.upstream.fallback.is_none());
}

#[test]
fn given_values_are_kept() {
    let attribute = OidcAttribute { claim: "sub".to_string(), header: "X-User".to_string() };
    let s = Settings::new(source(
        Some(TlsSource {
            enabled: false,
            cert_path: Some("c".to_string()),
            key_path: Some("k".to_string()),
            acme: Some(acme(Some(false), Some("elsewhere"))),
        }),
        vec![
            route("/a", Some(false), Some("http1"), Some(oidc(Some(vec![]), Some(vec![attribute])))),
            route("/b", Some(true), Some("x"), None),
        ],
        Some(route("", Some(false), None, None)),
    ));
    assert_eq!(s.server.addr, "0.0.0.0:8080");
    assert_eq!(s.server.grace_period_sec, 7);
    assert_eq!(s.server.log_level, "info");
    assert_eq!(s.server.http_addr.as_deref(), Some("0.0.0.0:81"));
    assert_eq!(s.server.metrics_addr, None);
    assert_eq!(s.server.cookie_secret.as_deref(), Some("s"));
    let tls = s.server.tls.unwrap();
    assert!(!tls.enabled);
    assert_eq!(tls.cert_path.as_deref(), Some("c"));
    assert_eq!(tls.key_path.as_deref(), Some("k"));
    let acme = tls.acme.unwrap();
    assert!(!acme.staging);
    assert_eq!(acme.cache_dir, "elsewhere");
    assert_eq!(acme.domains, vec!["example.com".to_string()]);
    assert_eq!(s.upstream.routes.len(), 2);
    assert_eq!(s.upstream.routes[0].path, "/a");
    assert!(!s.upstream.routes[0].health_check);
    assert_eq!(s.upstream.routes[0].protocol, "http1");
    let o = s.upstream.routes[0].oidc.as_ref().unwrap();
    assert!(o.scopes.is_empty());
    assert_eq!(o.attributes[0].claim, "sub");
    assert_eq!(o.attributes[0].header, "X-User");
    assert_eq!(s.upstream.routes[1].path, "/b");
    assert_eq!(s.upstream.routes[1].protocol, "x");
    assert!(s.upstream.routes[1].oidc.is_none());
    let fallback = s.upstream.fallback.unwrap();
    assert!(!fallback.health_check);
    assert_eq!(fallback.protocol, "http2");
}

fn same_settings(a: &Settings, b: &Settings) -> bool {
    format!("{:?}", a) == format!("{:?}", b)
}

#[test]
fn settings_written_out_are_read_back() {
    let attribute = OidcAttribute { claim: "sub".to_string(), header: "X-User".to_string() };
    let s = Settings::new(source(
        Some(TlsSource {
            enabled: true,
            cert_path: Some("c".to_string()),
            key_path: None,
            acme: Some(acme(Some(false), Some("elsewhere"))),
        }),
        vec![
            route("/a", Some(false), Some("http1"), Some(oidc(Some(vec![]), Some(vec![attribute])))),
            route("/b", None, None, Some(oidc(None, None))),
        ],
        Some(route("", Some(false), None, None)),
    ));
    let written = s.to_source();
    assert_eq!(written.upstream.routes[0].health_check, Some(false));
    assert_eq!(written.upstream.routes[1].protocol.as_deref(), Some("http2"));
    assert!(same_settings(&Settings::new(written), &s));
    let bare = Settings::new(source(None, vec![], None));
    assert!(same_settings(&Settings::new(bare.to_source()), &bare));
}
