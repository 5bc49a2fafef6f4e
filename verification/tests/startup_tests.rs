use gproxy::config::{AcmeSettings, ServerSettings, Settings, TlsSettings, UpstreamSettings};
use gproxy::startup::{listener, CacheFile, CertificateSource, Listener, StartupError};

fn settings(tls: Option<TlsSettings>, http_addr: Option<&str>) -> Settings {
    Settings {
        server: ServerSettings {
            addr: "0.0.0.0:443".to_string(),
            grace_period_sec: 1,
            log_level: "info".to_string(),
            http_addr: http_addr.map(|s| s.to_string()),
            metrics_addr: None,
            tls,
            cookie_secret: None,
        },
        upstream: UpstreamSettings { routes: vec![], fallback: None },
    }
}

fn tls(enabled: bool, cert: Option<&str>, key: Option<&str>, acme: Option<bool>) -> TlsSettings {
    TlsSettings {
        enabled,
        cert_path: cert.map(|s| s.to_string()),
        key_path: key.map(|s| s.to_string()),
        acme: acme.map(|enabled| AcmeSettings {
            enabled,
            domains: vec![],
            email: String::new(),
            staging: true,
            cache_dir: "cache".to_string(),
            directory_url: None,
        }),
    }
}

fn is_plain(s: &Settings) -> bool {
    match listener(s) {
        Ok(Listener::Plain { addr }) => addr == "0.0.0.0:443",
        _ => false,
    }
}

#[test]
fn without_tls_the_listener_is_plain() {
    assert!(is_plain(&settings(None, None)));
    assert!(is_plain(&settings(Some(tls(false, None, None, Some(true))), None)));
}

#[test]
fn with_acme_certificates_come_from_the_cache() {
    match listener(&settings(Some(tls(true, None, None, Some(true))), None)) {
        Ok(Listener::Tls { addr, certificates: CertificateSource::Cache { dir }, http_addr }) => {
            assert_eq!(addr, "0.0.0.0:443");
            assert_eq!(dir, "cache");
            assert_eq!(http_addr.as_deref(), Some("0.0.0.0:80"));
        }
        _ => panic!("expected the cache"),
    }
    match listener(&settings(Some(tls(true, None, None, Some(true))), Some("[::]:81"))) {
        Ok(Listener::Tls { http_addr, .. }) => assert_eq!(http_addr.as_deref(), Some("[::]:81")),
        _ => panic!("expected TLS"),
    }
}

#[test]
fn without_acme_both_paths_are_used() {
    for acme in [None, Some(false)] {
        match listener(&settings(Some(tls(true, Some("c"), Some("k"), acme)), Some("x"))) {
            Ok(Listener::Tls { certificates: CertificateSource::Files { cert, key }, http_addr, .. }) => {
                assert_eq!(cert, "c");
                assert_eq!(key, "k");
                assert_eq!(http_addr, None);
            }
            _ => panic!("expected the files"),
        }
    }
}

#[test]
fn missing_paths_are_refused() {
    let error = |cert, key| listener(&settings(Some(tls(true, cert, key, None)), None)).err();
    assert_eq!(error(None, None), Some(StartupError::MissingCertPath));
    assert_eq!(error(None, Some("k")), Some(StartupError::MissingCertPath));
    assert_eq!(error(Some("c"), None), Some(StartupError::MissingKeyPath));
    assert_eq!(error(Some("c"), Some("k")), None);
    assert_eq!(StartupError::MissingCertPath.message(), "cert_path is required if ACME is disabled");
    assert_eq!(StartupError::MissingKeyPath.message(), "key_path is required if ACME is disabled");
}

#[test]
fn cache_files_have_fixed_names() {
    assert_eq!(CacheFile::Certificate.name(), "cert.pem");
    assert_eq!(CacheFile::PrivateKey.name(), "key.pem");
    assert_eq!(CacheFile::AccountKey.name(), "account_key.der");
}
