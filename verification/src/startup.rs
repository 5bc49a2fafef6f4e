//! What to listen on, and where the certificates of the TLS listener come from.

use vstd::prelude::*;

use crate::config::Settings;

verus! {

/// Where the certificate and its key are kept.
pub enum CertificateSource {
    /// In the ACME cache directory, under the names of `CacheFile`.
    Cache { dir: String },
    /// In two files of their own.
    Files { cert: String, key: String },
}

/// A file in the ACME cache directory.
#[derive(Debug, Clone, Copy, PartialEq, Eq, Structural)]
pub enum CacheFile {
    Certificate,
    PrivateKey,
    AccountKey,
}

impl CacheFile {
    /// The name of the file.
    pub fn name(&self) -> (r: &'static str)
        ensures
            r@ == (match self {
                CacheFile::Certificate => "cert.pem"@,
                CacheFile::PrivateKey => "key.pem"@,
                CacheFile::AccountKey => "account_key.der"@,
            }),
    {
        match self {
            CacheFile::Certificate => "cert.pem",
            CacheFile::PrivateKey => "key.pem",
            CacheFile::AccountKey => "account_key.der",
        }
    }
}

/// How the proxy listens.
pub enum Listener {
    /// Cleartext on `addr`.
    Plain { addr: String },
    /// TLS on `addr`. With certificates from ACME, a plain-HTTP listener on `http_addr`
    /// answers challenges and redirects the rest.
    Tls { addr: String, certificates: CertificateSource, http_addr: Option<String> },
}

/// Why the proxy cannot listen as its settings ask.
#[derive(Debug, Clone, Copy, PartialEq, Eq, Structural)]
pub enum StartupError {
    MissingCertPath,
    MissingKeyPath,
}

impl StartupError {
    /// Says in words what is missing.
    pub fn message(&self) -> (r: &'static str)
        ensures
            r@ == (match self {
                StartupError::MissingCertPath => "cert_path is required if ACME is disabled"@,
                StartupError::MissingKeyPath => "key_path is required if ACME is disabled"@,
            }),
    {
        match self {
            StartupError::MissingCertPath => "cert_path is required if ACME is disabled",
            StartupError::MissingKeyPath => "key_path is required if ACME is disabled",
        }
    }
}

/// Whether TLS is switched on.
pub open spec fn tls_enabled(settings: Settings) -> bool {
    settings.server.tls is Some && (settings.server.tls->0).enabled
}

/// Whether certificates come from ACME.
pub open spec fn acme_enabled(settings: Settings) -> bool {
    &&& settings.server.tls is Some
    &&& (settings.server.tls->0).acme is Some
    &&& ((settings.server.tls->0).acme->0).enabled
}

/// Whether `listener` is how the settings ask the proxy to listen.
pub open spec fn is_asked_for(settings: Settings, listener: Listener) -> bool {
    match listener {
        Listener::Plain { addr } => !tls_enabled(settings) && addr@ == settings.server.addr@,
        Listener::Tls { addr, certificates, http_addr } => {
            &&& tls_enabled(settings)
            &&& addr@ == settings.server.addr@
            &&& if acme_enabled(settings) {
                &&& certificates matches CertificateSource::Cache { dir } && dir@
                    == ((settings.server.tls->0).acme->0).cache_dir@
                &&& http_addr is Some
                &&& (http_addr->0)@ == (match settings.server.http_addr {
                    Some(given) => given@,
                    None => "0.0.0.0:80"@,
                })
            } else {
                &&& certificates matches CertificateSource::Files { cert, key } && {
                    &&& (settings.server.tls->0).cert_path == Some(cert)
                    &&& (settings.server.tls->0).key_path == Some(key)
                }
                &&& http_addr is None
            }
        },
    }
}

/// What keeps the proxy from listening: TLS without ACME needs both certificate paths.
pub open spec fn refusal(settings: Settings) -> Option<StartupError> {
    if tls_enabled(settings) && !acme_enabled(settings) {
        if (settings.server.tls->0).cert_path is None {
            Some(StartupError::MissingCertPath)
        } else if (settings.server.tls->0).key_path is None {
            Some(StartupError::MissingKeyPath)
        } else {
            None
        }
    } else {
        None
    }
}

/// Works out how to listen. With TLS but without ACME both certificate paths must be given.
pub fn listener(settings: &Settings) -> (r: Result<Listener, StartupError>)
    ensures
        match r {
            Ok(listener) => refusal(*settings) is None && is_asked_for(*settings, listener),
            Err(error) => refusal(*settings) == Some(error),
        },
{
    let addr: String = settings.server.addr.clone();
    let tls = match &settings.server.tls {
        Some(tls) => tls,
        None => {
            return Ok(Listener::Plain { addr });
        },
    };
    if !tls.enabled {
        return Ok(Listener::Plain { addr });
    }
    if let Some(acme) = &tls.acme {
        if acme.enabled {
            let http_addr: String = match &settings.server.http_addr {
                Some(given) => given.clone(),
                None => "0.0.0.0:80".to_owned(),
            };
            return Ok(
                Listener::Tls {
                    addr,
                    certificates: CertificateSource::Cache { dir: acme.cache_dir.clone() },
                    http_addr: Some(http_addr),
                },
            );
        }
    }
    match (&tls.cert_path, &tls.key_path) {
        (None, _) => Err(StartupError::MissingCertPath),
        (Some(_), None) => Err(StartupError::MissingKeyPath),
        (Some(cert), Some(key)) => Ok(
            Listener::Tls {
                addr,
                certificates: CertificateSource::Files { cert: cert.clone(), key: key.clone() },
                http_addr: None,
            },
        ),
    }
}

/// Only TLS without ACME can be refused, and only for a path that is not given; the certificate's
/// is missed first.
pub proof fn law_only_missing_paths_are_refused(settings: Settings)
    ensures
        settings.server.tls is None ==> refusal(settings) is None,
        settings.server.tls matches Some(tls) ==> {
            let by_acme = tls.acme is Some && tls.acme->0.enabled;
            &&& refusal(settings) is None <==> !tls.enabled || by_acme || (tls.cert_path is Some
                && tls.key_path is Some)
            &&& refusal(settings) == Some(StartupError::MissingCertPath) <==> tls.enabled
                && !by_acme && tls.cert_path is None
            &&& refusal(settings) == Some(StartupError::MissingKeyPath) <==> tls.enabled && !by_acme
                && tls.cert_path is Some && tls.key_path is None
        },
{
}

/// Without TLS the proxy listens in cleartext on its address.
pub proof fn law_without_tls_the_listener_is_plain(settings: Settings, listener: Listener)
    requires
        settings.server.tls is None || !(settings.server.tls->0).enabled,
        is_asked_for(settings, listener),
    ensures
        listener is Plain,
        listener->Plain_addr@ == settings.server.addr@,
{
}

/// With TLS the proxy listens on its address, with the certificate of the ACME cache and a
/// plain-HTTP listener beside it if ACME is enabled, and else with the two given files alone.
pub proof fn law_with_tls_certificates_come_from_where_they_are_kept(
    settings: Settings,
    listener: Listener,
)
    requires
        settings.server.tls is Some,
        (settings.server.tls->0).enabled,
        is_asked_for(settings, listener),
    ensures
        listener is Tls,
        listener->Tls_addr@ == settings.server.addr@,
        ({
            let tls = settings.server.tls->0;
            if tls.acme is Some && tls.acme->0.enabled {
                &&& listener->certificates is Cache
                &&& (listener->certificates)->dir@ == (tls.acme->0).cache_dir@
                &&& listener->http_addr is Some
                &&& settings.server.http_addr is Some ==> (listener->http_addr->0)@ == (
                settings.server.http_addr->0)@
                &&& settings.server.http_addr is None ==> (listener->http_addr->0)@
                    == "0.0.0.0:80"@
            } else {
                &&& listener->certificates is Files
                &&& tls.cert_path == Some((listener->certificates)->cert)
                &&& tls.key_path == Some((listener->certificates)->key)
                &&& listener->http_addr is None
            }
        }),
{
}

} // verus!
