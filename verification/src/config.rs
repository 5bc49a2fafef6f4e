//! The proxy's settings, and how absent values are filled in.

use vstd::prelude::*;

use crate::text::{copy_list, copy_option, option_view, views};

verus! {

/// How certificates are obtained over ACME.
#[derive(Debug, Clone)]
pub struct AcmeSettings {
    pub enabled: bool,
    pub domains: Vec<String>,
    pub email: String,
    pub staging: bool,
    pub cache_dir: String,
    pub directory_url: Option<String>,
}

/// How the TLS listener gets its certificate.
#[derive(Debug, Clone)]
pub struct TlsSettings {
    pub enabled: bool,
    pub cert_path: Option<String>,
    pub key_path: Option<String>,
    pub acme: Option<AcmeSettings>,
}

/// Maps a JWT/ID-token claim to an HTTP header injected into the upstream request.
#[derive(Debug, Clone)]
pub struct OidcAttribute {
    /// The claim name inside the ID token (e.g. "email", "sub", "preferred_username").
    pub claim: String,
    /// The HTTP header name to inject (e.g. "X-Auth-Email", "X-Auth-User").
    pub header: String,
}

/// OIDC Relying-Party configuration for a single route.
#[derive(Debug, Clone)]
pub struct OidcSettings {
    pub client_id: String,
    pub client_secret: String,
    /// Authorization endpoint of the Identity Provider (e.g. "https://idp.example.com/authorize").
    pub auth_url: String,
    /// Token endpoint of the Identity Provider (e.g. "https://idp.example.com/token").
    pub token_url: String,
    /// The redirect/callback URI registered with the IdP.
    pub redirect_uri: String,
    /// The scopes to request.
    pub scopes: Vec<String>,
    /// Claim-to-header mappings injected into the proxied request.
    pub attributes: Vec<OidcAttribute>,
}

/// Listening addresses and what belongs to the process as a whole.
#[derive(Debug, Clone)]
pub struct ServerSettings {
    pub addr: String,
    pub grace_period_sec: u64,
    pub log_level: String,
    pub http_addr: Option<String>,
    pub metrics_addr: Option<String>,
    pub tls: Option<TlsSettings>,
    /// Base64-encoded 32-byte secret used to sign the local OIDC session cookie.
    /// If omitted, a random secret is generated at startup.
    pub cookie_secret: Option<String>,
}

/// The backends that serve the paths under one prefix.
#[derive(Debug, Clone)]
pub struct UpstreamRoute {
    pub path: String,
    pub backends: Vec<String>,
    pub tls: bool,
    pub host_header: String,
    pub health_check: bool,
    /// Upstream protocol: "http1" for HTTP/1.1, anything else for HTTP/2 / h2c / gRPC.
    pub protocol: String,
    /// Optional per-route OIDC configuration. When set, unauthenticated requests are
    /// redirected to the IdP, and authenticated claims are injected as headers.
    pub oidc: Option<OidcSettings>,
}

/// The routes in the order in which they are tried, and what serves the rest.
#[derive(Debug, Clone)]
pub struct UpstreamSettings {
    pub routes: Vec<UpstreamRoute>,
    pub fallback: Option<UpstreamRoute>,
}

/// The whole configuration.
#[derive(Debug, Clone)]
pub struct Settings {
    pub server: ServerSettings,
    pub upstream: UpstreamSettings,
}

/// ACME settings as written down, before defaults.
pub struct AcmeSource {
    pub enabled: bool,
    pub domains: Vec<String>,
    pub email: String,
    pub staging: Option<bool>,
    pub cache_dir: Option<String>,
    pub directory_url: Option<String>,
}

/// TLS settings as written down, before defaults.
pub struct TlsSource {
    pub enabled: bool,
    pub cert_path: Option<String>,
    pub key_path: Option<String>,
    pub acme: Option<AcmeSource>,
}

/// OIDC settings as written down, before defaults.
pub struct OidcSource {
    pub client_id: String,
    pub client_secret: String,
    pub auth_url: String,
    pub token_url: String,
    pub redirect_uri: String,
    pub scopes: Option<Vec<String>>,
    pub attributes: Option<Vec<OidcAttribute>>,
}

/// Server settings as written down, before defaults.
pub struct ServerSource {
    pub addr: String,
    pub grace_period_sec: u64,
    pub log_level: String,
    pub http_addr: Option<String>,
    pub metrics_addr: Option<String>,
    pub tls: Option<TlsSource>,
    pub cookie_secret: Option<String>,
}

/// A route as written down, before defaults.
pub struct RouteSource {
    pub path: String,
    pub backends: Vec<String>,
    pub tls: bool,
    pub host_header: String,
    pub health_check: Option<bool>,
    pub protocol: Option<String>,
    pub oidc: Option<OidcSource>,
}

/// The routes as written down, before defaults.
pub struct UpstreamSource {
    pub routes: Vec<RouteSource>,
    pub fallback: Option<RouteSource>,
}

/// A configuration as written down, before defaults.
pub struct SettingsSource {
    pub server: ServerSource,
    pub upstream: UpstreamSource,
}

/// Certificates come from the staging directory unless told otherwise.
pub fn default_staging() -> (r: bool)
    ensures
        r,
{
    true
}

/// Certificates are cached under `certs` unless told otherwise.
pub fn default_cache_dir() -> (r: String)
    ensures
        r@ == "certs"@,
{
    "certs".to_owned()
}

/// Only the `openid` scope is requested unless told otherwise.
pub fn default_scopes() -> (r: Vec<String>)
    ensures
        r@.len() == 1,
        r@[0]@ == "openid"@,
{
    let mut scopes: Vec<String> = Vec::new();
    scopes.push("openid".to_owned());
    scopes
}

/// Backends are probed unless told otherwise.
pub fn default_health_check() -> (r: bool)
    ensures
        r,
{
    true
}

/// Backends speak HTTP/2 unless told otherwise.
pub fn default_protocol() -> (r: String)
    ensures
        r@ == "http2"@,
{
    "http2".to_owned()
}

impl AcmeSource {
    /// Whether `done` says what `self` says, with each absent value at its default.
    pub open spec fn completed_as(self, done: AcmeSettings) -> bool {
        &&& done.enabled == self.enabled
        &&& done.domains == self.domains
        &&& done.email == self.email
        &&& done.directory_url == self.directory_url
        &&& match self.staging {
            Some(staging) => done.staging == staging,
            None => done.staging,
        }
        &&& match self.cache_dir {
            Some(dir) => done.cache_dir == dir,
            None => done.cache_dir@ == "certs"@,
        }
    }

    /// Fills in the absent values.
    pub fn complete(self) -> (done: AcmeSettings)
        ensures
            self.completed_as(done),
    {
        AcmeSettings {
            enabled: self.enabled,
            domains: self.domains,
            email: self.email,
            staging: match self.staging {
                Some(staging) => staging,
                None => default_staging(),
            },
            cache_dir: match self.cache_dir {
                Some(dir) => dir,
                None => default_cache_dir(),
            },
            directory_url: self.directory_url,
        }
    }
}

impl TlsSource {
    /// Whether `done` says what `self` says, with each absent value at its default.
    pub open spec fn completed_as(self, done: TlsSettings) -> bool {
        &&& done.enabled == self.enabled
        &&& done.cert_path == self.cert_path
        &&& done.key_path == self.key_path
        &&& match self.acme {
            Some(acme) => done.acme is Some && acme.completed_as(done.acme->0),
            None => done.acme is None,
        }
    }

    /// Fills in the absent values.
    pub fn complete(self) -> (done: TlsSettings)
        ensures
            self.completed_as(done),
    {
        TlsSettings {
            enabled: self.enabled,
            cert_path: self.cert_path,
            key_path: self.key_path,
            acme: match self.acme {
                Some(acme) => Some(acme.complete()),
                None => None,
            },
        }
    }
}

impl OidcSource {
    /// Whether `done` says what `self` says, with each absent value at its default.
    pub open spec fn completed_as(self, done: OidcSettings) -> bool {
        &&& done.client_id == self.client_id
        &&& done.client_secret == self.client_secret
        &&& done.auth_url == self.auth_url
        &&& done.token_url == self.token_url
        &&& done.redirect_uri == self.redirect_uri
        &&& match self.scopes {
            Some(scopes) => done.scopes == scopes,
            None => done.scopes@.len() == 1 && done.scopes@[0]@ == "openid"@,
        }
        &&& match self.attributes {
            Some(attributes) => done.attributes == attributes,
            None => done.attributes@.len() == 0,
        }
    }

    /// Fills in the absent values.
    pub fn complete(self) -> (done: OidcSettings)
        ensures
            self.completed_as(done),
    {
        OidcSettings {
            client_id: self.client_id,
            client_secret: self.client_secret,
            auth_url: self.auth_url,
            token_url: self.token_url,
            redirect_uri: self.redirect_uri,
            scopes: match self.scopes {
                Some(scopes) => scopes,
                None => default_scopes(),
            },
            attributes: match self.attributes {
                Some(attributes) => attributes,
                None => Vec::new(),
            },
        }
    }
}

impl RouteSource {
    /// Whether `done` says what `self` says, with each absent value at its default.
    pub open spec fn completed_as(self, done: UpstreamRoute) -> bool {
        &&& done.path == self.path
        &&& done.backends == self.backends
        &&& done.tls == self.tls
        &&& done.host_header == self.host_header
        &&& match self.health_check {
            Some(check) => done.health_check == check,
            None => done.health_check,
        }
        &&& match self.protocol {
            Some(protocol) => done.protocol == protocol,
            None => done.protocol@ == "http2"@,
        }
        &&& match self.oidc {
            Some(oidc) => done.oidc is Some && oidc.completed_as(done.oidc->0),
            None => done.oidc is None,
        }
    }

    /// Fills in the absent values.
    pub fn complete(self) -> (done: UpstreamRoute)
        ensures
            self.completed_as(done),
    {
        UpstreamRoute {
            path: self.path,
            backends: self.backends,
            tls: self.tls,
            host_header: self.host_header,
            health_check: match self.health_check {
                Some(check) => check,
                None => default_health_check(),
            },
            protocol: match self.protocol {
                Some(protocol) => protocol,
                None => default_protocol(),
            },
            oidc: match self.oidc {
                Some(oidc) => Some(oidc.complete()),
                None => None,
            },
        }
    }
}

impl ServerSource {
    /// Whether `done` says what `self` says, with each absent value at its default.
    pub open spec fn completed_as(self, done: ServerSettings) -> bool {
        &&& done.addr == self.addr
        &&& done.grace_period_sec == self.grace_period_sec
        &&& done.log_level == self.log_level
        &&& done.http_addr == self.http_addr
        &&& done.metrics_addr == self.metrics_addr
        &&& done.cookie_secret == self.cookie_secret
        &&& match self.tls {
            Some(tls) => done.tls is Some && tls.completed_as(done.tls->0),
            None => done.tls is None,
        }
    }
}

impl UpstreamSource {
    /// Whether `done` says what `self` says, with each absent value at its default.
    pub open spec fn completed_as(self, done: UpstreamSettings) -> bool {
        &&& done.routes@.len() == self.routes@.len()
        &&& forall|i: int|
            0 <= i < self.routes@.len() ==> #[trigger] self.routes@[i].completed_as(done.routes@[i])
        &&& match self.fallback {
            Some(fallback) => done.fallback is Some && fallback.completed_as(done.fallback->0),
            None => done.fallback is None,
        }
    }
}

impl SettingsSource {
    /// Whether `done` says what `self` says, with each absent value at its default.
    pub open spec fn completed_as(self, done: Settings) -> bool {
        &&& self.server.completed_as(done.server)
        &&& self.upstream.completed_as(done.upstream)
    }
}

impl Settings {
    /// The settings that `source` asks for: every value it gives is kept, and
    /// every value it leaves out takes its default.
    pub fn new(source: SettingsSource) -> (r: Self)
        ensures
            source.completed_as(r),
    {
        let mut routes: Vec<UpstreamRoute> = Vec::new();
        for route in iter: source.upstream.routes
            invariant
                iter.seq() == source.upstream.routes@,
                routes@.len() == iter.index(),
                forall|i: int|
                    0 <= i < iter.index() ==> #[trigger] source.upstream.routes@[i].completed_as(
                        routes@[i],
                    ),
        {
            routes.push(route.complete());
        }
        Settings {
            server: ServerSettings {
                addr: source.server.addr,
                grace_period_sec: source.server.grace_period_sec,
                log_level: source.server.log_level,
                http_addr: source.server.http_addr,
                metrics_addr: source.server.metrics_addr,
                tls: match source.server.tls {
                    Some(tls) => Some(tls.complete()),
                    None => None,
                },
                cookie_secret: source.server.cookie_secret,
            },
            upstream: UpstreamSettings {
                routes,
                fallback: match source.upstream.fallback {
                    Some(fallback) => Some(fallback.complete()),
                    None => None,
                },
            },
        }
    }
}

impl AcmeSettings {
    /// Whether two settings say the same.
    pub open spec fn same(self, other: AcmeSettings) -> bool {
        &&& self.enabled == other.enabled
        &&& views(self.domains@) == views(other.domains@)
        &&& self.email@ == other.email@
        &&& self.staging == other.staging
        &&& self.cache_dir@ == other.cache_dir@
        &&& option_view(self.directory_url) == option_view(other.directory_url)
    }

    /// Writes the settings down, with every value given.
    pub fn to_source(&self) -> (r: AcmeSource)
        ensures
            r.writes_out(*self),
    {
        AcmeSource {
            enabled: self.enabled,
            domains: copy_list(&self.domains),
            email: self.email.clone(),
            staging: Some(self.staging),
            cache_dir: Some(self.cache_dir.clone()),
            directory_url: copy_option(&self.directory_url),
        }
    }
}

impl AcmeSource {
    /// Whether these are the given settings, with every value given.
    pub open spec fn writes_out(self, done: AcmeSettings) -> bool {
        &&& self.enabled == done.enabled
        &&& views(self.domains@) == views(done.domains@)
        &&& self.email@ == done.email@
        &&& self.staging == Some(done.staging)
        &&& option_view(self.cache_dir) == Some(done.cache_dir@)
        &&& option_view(self.directory_url) == option_view(done.directory_url)
    }
}

impl TlsSettings {
    /// Whether two settings say the same.
    pub open spec fn same(self, other: TlsSettings) -> bool {
        &&& self.enabled == other.enabled
        &&& option_view(self.cert_path) == option_view(other.cert_path)
        &&& option_view(self.key_path) == option_view(other.key_path)
        &&& match (self.acme, other.acme) {
            (Some(a), Some(b)) => a.same(b),
            (None, None) => true,
            _ => false,
        }
    }

    /// Writes the settings down, with every value given.
    pub fn to_source(&self) -> (r: TlsSource)
        ensures
            r.writes_out(*self),
    {
        TlsSource {
            enabled: self.enabled,
            cert_path: copy_option(&self.cert_path),
            key_path: copy_option(&self.key_path),
            acme: match &self.acme {
                Some(acme) => Some(acme.to_source()),
                None => None,
            },
        }
    }
}

impl TlsSource {
    /// Whether these are the given settings, with every value given.
    pub open spec fn writes_out(self, done: TlsSettings) -> bool {
        &&& self.enabled == done.enabled
        &&& option_view(self.cert_path) == option_view(done.cert_path)
        &&& option_view(self.key_path) == option_view(done.key_path)
        &&& match (self.acme, done.acme) {
            (Some(a), Some(b)) => a.writes_out(b),
            (None, None) => true,
            _ => false,
        }
    }
}

impl OidcAttribute {
    /// Whether two mappings are the same.
    pub open spec fn same(self, other: OidcAttribute) -> bool {
        self.claim@ == other.claim@ && self.header@ == other.header@
    }
}

/// Whether two lists of mappings are the same.
pub open spec fn same_attributes(a: Seq<OidcAttribute>, b: Seq<OidcAttribute>) -> bool {
    a.len() == b.len() && forall|i: int| 0 <= i < a.len() ==> (#[trigger] a[i]).same(b[i])
}

/// Copies a list of mappings.
fn copy_attributes(list: &Vec<OidcAttribute>) -> (r: Vec<OidcAttribute>)
    ensures
        same_attributes(r@, list@),
{
    let mut out: Vec<OidcAttribute> = Vec::new();
    let mut i: usize = 0;
    while i < list.len()
        invariant
            i <= list@.len(),
            same_attributes(out@, list@.take(i as int)),
        decreases list@.len() - i,
    {
        let copy = OidcAttribute { claim: list[i].claim.clone(), header: list[i].header.clone() };
        out.push(copy);
        i += 1;
    }
    assert(list@.take(i as int) == list@);
    out
}

impl OidcSettings {
    /// Whether two settings say the same.
    pub open spec fn same(self, other: OidcSettings) -> bool {
        &&& self.client_id@ == other.client_id@
        &&& self.client_secret@ == other.client_secret@
        &&& self.auth_url@ == other.auth_url@
        &&& self.token_url@ == other.token_url@
        &&& self.redirect_uri@ == other.redirect_uri@
        &&& views(self.scopes@) == views(other.scopes@)
        &&& same_attributes(self.attributes@, other.attributes@)
    }

    /// Writes the settings down, with every value given.
    pub fn to_source(&self) -> (r: OidcSource)
        ensures
            r.writes_out(*self),
    {
        OidcSource {
            client_id: self.client_id.clone(),
            client_secret: self.client_secret.clone(),
            auth_url: self.auth_url.clone(),
            token_url: self.token_url.clone(),
            redirect_uri: self.redirect_uri.clone(),
            scopes: Some(copy_list(&self.scopes)),
            attributes: Some(copy_attributes(&self.attributes)),
        }
    }
}

impl OidcSource {
    /// Whether these are the given settings, with every value given.
    pub open spec fn writes_out(self, done: OidcSettings) -> bool {
        &&& self.client_id@ == done.client_id@
        &&& self.client_secret@ == done.client_secret@
        &&& self.auth_url@ == done.auth_url@
        &&& self.token_url@ == done.token_url@
        &&& self.redirect_uri@ == done.redirect_uri@
        &&& self.scopes is Some
        &&& views((self.scopes->0)@) == views(done.scopes@)
        &&& self.attributes is Some
        &&& same_attributes((self.attributes->0)@, done.attributes@)
    }
}

impl UpstreamRoute {
    /// Whether two routes are the same.
    pub open spec fn same(self, other: UpstreamRoute) -> bool {
        &&& self.path@ == other.path@
        &&& views(self.backends@) == views(other.backends@)
        &&& self.tls == other.tls
        &&& self.host_header@ == other.host_header@
        &&& self.health_check == other.health_check
        &&& self.protocol@ == other.protocol@
        &&& match (self.oidc, other.oidc) {
            (Some(a), Some(b)) => a.same(b),
            (None, None) => true,
            _ => false,
        }
    }

    /// Writes the route down, with every value given.
    pub fn to_source(&self) -> (r: RouteSource)
        ensures
            r.writes_out(*self),
    {
        RouteSource {
            path: self.path.clone(),
            backends: copy_list(&self.backends),
            tls: self.tls,
            host_header: self.host_header.clone(),
            health_check: Some(self.health_check),
            protocol: Some(self.protocol.clone()),
            oidc: match &self.oidc {
                Some(oidc) => Some(oidc.to_source()),
                None => None,
            },
        }
    }
}

impl RouteSource {
    /// Whether this is the given route, with every value given.
    pub open spec fn writes_out(self, done: UpstreamRoute) -> bool {
        &&& self.path@ == done.path@
        &&& views(self.backends@) == views(done.backends@)
        &&& self.tls == done.tls
        &&& self.host_header@ == done.host_header@
        &&& self.health_check == Some(done.health_check)
        &&& option_view(self.protocol) == Some(done.protocol@)
        &&& match (self.oidc, done.oidc) {
            (Some(a), Some(b)) => a.writes_out(b),
            (None, None) => true,
            _ => false,
        }
    }
}

impl ServerSettings {
    /// Whether two settings say the same.
    pub open spec fn same(self, other: ServerSettings) -> bool {
        &&& self.addr@ == other.addr@
        &&& self.grace_period_sec == other.grace_period_sec
        &&& self.log_level@ == other.log_level@
        &&& option_view(self.http_addr) == option_view(other.http_addr)
        &&& option_view(self.metrics_addr) == option_view(other.metrics_addr)
        &&& option_view(self.cookie_secret) == option_view(other.cookie_secret)
        &&& match (self.tls, other.tls) {
            (Some(a), Some(b)) => a.same(b),
            (None, None) => true,
            _ => false,
        }
    }
}

impl ServerSource {
    /// Whether these are the given settings, with every value given.
    pub open spec fn writes_out(self, done: ServerSettings) -> bool {
        &&& self.addr@ == done.addr@
        &&& self.grace_period_sec == done.grace_period_sec
        &&& self.log_level@ == done.log_level@
        &&& option_view(self.http_addr) == option_view(done.http_addr)
        &&& option_view(self.metrics_addr) == option_view(done.metrics_addr)
        &&& option_view(self.cookie_secret) == option_view(done.cookie_secret)
        &&& match (self.tls, done.tls) {
            (Some(a), Some(b)) => a.writes_out(b),
            (None, None) => true,
            _ => false,
        }
    }
}

impl UpstreamSettings {
    /// Whether two settings say the same.
    pub open spec fn same(self, other: UpstreamSettings) -> bool {
        &&& self.routes@.len() == other.routes@.len()
        &&& forall|i: int|
            0 <= i < self.routes@.len() ==> (#[trigger] self.routes@[i]).same(other.routes@[i])
        &&& match (self.fallback, other.fallback) {
            (Some(a), Some(b)) => a.same(b),
            (None, None) => true,
            _ => false,
        }
    }
}

impl UpstreamSource {
    /// Whether these are the given settings, with every value given.
    pub open spec fn writes_out(self, done: UpstreamSettings) -> bool {
        &&& self.routes@.len() == done.routes@.len()
        &&& forall|i: int|
            0 <= i < self.routes@.len() ==> (#[trigger] self.routes@[i]).writes_out(done.routes@[i])
        &&& match (self.fallback, done.fallback) {
            (Some(a), Some(b)) => a.writes_out(b),
            (None, None) => true,
            _ => false,
        }
    }
}

impl SettingsSource {
    /// Whether these are the given settings, with every value given.
    pub open spec fn writes_out(self, done: Settings) -> bool {
        self.server.writes_out(done.server) && self.upstream.writes_out(done.upstream)
    }
}

impl Settings {
    /// Whether two settings say the same.
    pub open spec fn same(self, other: Settings) -> bool {
        self.server.same(other.server) && self.upstream.same(other.upstream)
    }

    /// Writes the settings down, with every value given.
    pub fn to_source(&self) -> (r: SettingsSource)
        ensures
            r.writes_out(*self),
    {
        let mut routes: Vec<RouteSource> = Vec::new();
        let mut i: usize = 0;
        while i < self.upstream.routes.len()
            invariant
                i <= self.upstream.routes@.len(),
                routes@.len() == i,
                forall|j: int|
                    0 <= j < i ==> (#[trigger] routes@[j]).writes_out(self.upstream.routes@[j]),
            decreases self.upstream.routes@.len() - i,
        {
            routes.push(self.upstream.routes[i].to_source());
            i += 1;
        }
        SettingsSource {
            server: ServerSource {
                addr: self.server.addr.clone(),
                grace_period_sec: self.server.grace_period_sec,
                log_level: self.server.log_level.clone(),
                http_addr: copy_option(&self.server.http_addr),
                metrics_addr: copy_option(&self.server.metrics_addr),
                tls: match &self.server.tls {
                    Some(tls) => Some(tls.to_source()),
                    None => None,
                },
                cookie_secret: copy_option(&self.server.cookie_secret),
            },
            upstream: UpstreamSource {
                routes,
                fallback: match &self.upstream.fallback {
                    Some(fallback) => Some(fallback.to_source()),
                    None => None,
                },
            },
        }
    }
}

/// Settings that are written down and completed again are the same settings: no default takes
/// the place of a value in force.
pub proof fn law_settings_written_out_are_read_back(
    settings: Settings,
    source: SettingsSource,
    read: Settings,
)
    requires
        source.writes_out(settings),
        source.completed_as(read),
    ensures
        settings.same(read),
{
    let (a, b) = (settings.upstream.routes@, read.upstream.routes@);
    assert forall|i: int| 0 <= i < a.len() implies (#[trigger] a[i]).same(b[i]) by {
        let route = source.upstream.routes@[i];
        assert(route.writes_out(a[i]));
        assert(route.completed_as(b[i]));
        lemma_route_read_back(a[i], route, b[i]);
    }
    if let (Some(fallback), Some(other), Some(route)) = (
        settings.upstream.fallback,
        read.upstream.fallback,
        source.upstream.fallback,
    ) {
        lemma_route_read_back(fallback, route, other);
    }
}

proof fn lemma_route_read_back(settings: UpstreamRoute, source: RouteSource, read: UpstreamRoute)
    requires
        source.writes_out(settings),
        source.completed_as(read),
    ensures
        settings.same(read),
{
    if let (Some(a), Some(from), Some(b)) = (settings.oidc, source.oidc, read.oidc) {
        let (x, given, y) = (a.attributes@, (from.attributes->0)@, b.attributes@);
        assert forall|i: int| 0 <= i < x.len() implies (#[trigger] x[i]).same(y[i]) by {
            assert(given[i].same(x[i]));
        }
    }
}

/// Of ACME settings every given value is kept; without one, the staging directory is used and
/// certificates are cached under `certs`.
pub proof fn law_acme_defaults(source: AcmeSource, done: AcmeSettings)
    requires
        source.completed_as(done),
    ensures
        done.enabled == source.enabled,
        done.domains == source.domains,
        done.email == source.email,
        done.directory_url == source.directory_url,
        source.staging is Some ==> done.staging == source.staging->0,
        source.staging is None ==> done.staging,
        source.cache_dir is Some ==> done.cache_dir == source.cache_dir->0,
        source.cache_dir is None ==> done.cache_dir@ == "certs"@,
{
}

/// Of OIDC settings every given value is kept; without one, the scope is `openid` and no claim is
/// mapped.
pub proof fn law_oidc_defaults(source: OidcSource, done: OidcSettings)
    requires
        source.completed_as(done),
    ensures
        done.client_id == source.client_id,
        done.client_secret == source.client_secret,
        done.auth_url == source.auth_url,
        done.token_url == source.token_url,
        done.redirect_uri == source.redirect_uri,
        source.scopes is Some ==> done.scopes == source.scopes->0,
        source.scopes is None ==> done.scopes@.len() == 1 && done.scopes@[0]@ == "openid"@,
        source.attributes is Some ==> done.attributes == source.attributes->0,
        source.attributes is None ==> done.attributes@.len() == 0,
{
}

/// Of a route every given value is kept; without one, its backends are probed and speak HTTP/2,
/// and it is unprotected.
pub proof fn law_route_defaults(source: RouteSource, done: UpstreamRoute)
    requires
        source.completed_as(done),
    ensures
        done.path == source.path,
        done.backends == source.backends,
        done.tls == source.tls,
        done.host_header == source.host_header,
        source.health_check is Some ==> done.health_check == source.health_check->0,
        source.health_check is None ==> done.health_check,
        source.protocol is Some ==> done.protocol == source.protocol->0,
        source.protocol is None ==> done.protocol@ == "http2"@,
        source.oidc is None <==> done.oidc is None,
        source.oidc is Some ==> (source.oidc->0).completed_as(done.oidc->0),
{
}

/// Of server and TLS settings every value is kept, and every absent one stays absent.
pub proof fn law_server_settings_are_kept(source: ServerSource, done: ServerSettings)
    requires
        source.completed_as(done),
    ensures
        done.addr == source.addr,
        done.grace_period_sec == source.grace_period_sec,
        done.log_level == source.log_level,
        done.http_addr == source.http_addr,
        done.metrics_addr == source.metrics_addr,
        done.cookie_secret == source.cookie_secret,
        source.tls is None <==> done.tls is None,
        source.tls is Some ==> {
            let (given, kept) = (source.tls->0, done.tls->0);
            &&& kept.enabled == given.enabled
            &&& kept.cert_path == given.cert_path
            &&& kept.key_path == given.key_path
            &&& given.acme is None <==> kept.acme is None
            &&& given.acme is Some ==> (given.acme->0).completed_as(kept.acme->0)
        },
{
}

/// Settings are completed part by part: the server's, every route in its place, and the fallback.
pub proof fn law_settings_are_completed_part_by_part(
    source: SettingsSource,
    done: Settings,
    i: int,
)
    requires
        source.completed_as(done),
    ensures
        source.server.completed_as(done.server),
        done.upstream.routes@.len() == source.upstream.routes@.len(),
        0 <= i < source.upstream.routes@.len() ==> source.upstream.routes@[i].completed_as(
            done.upstream.routes@[i],
        ),
        source.upstream.fallback is None <==> done.upstream.fallback is None,
        source.upstream.fallback is Some ==> (source.upstream.fallback->0).completed_as(
            done.upstream.fallback->0,
        ),
{
}

/// Settings that are the same have the same server settings, letter for letter.
pub proof fn law_same_servers_agree(a: ServerSettings, b: ServerSettings)
    requires
        a.same(b),
    ensures
        a.addr@ == b.addr@,
        a.grace_period_sec == b.grace_period_sec,
        a.log_level@ == b.log_level@,
        a.http_addr is None <==> b.http_addr is None,
        a.http_addr is Some ==> (a.http_addr->0)@ == (b.http_addr->0)@,
        a.metrics_addr is None <==> b.metrics_addr is None,
        a.metrics_addr is Some ==> (a.metrics_addr->0)@ == (b.metrics_addr->0)@,
        a.cookie_secret is None <==> b.cookie_secret is None,
        a.cookie_secret is Some ==> (a.cookie_secret->0)@ == (b.cookie_secret->0)@,
        a.tls is None <==> b.tls is None,
        a.tls is Some ==> (a.tls->0).same(b.tls->0),
{
}

/// Settings that are the same have the same TLS and ACME settings, letter for letter.
pub proof fn law_same_tls_agrees(a: TlsSettings, b: TlsSettings, i: int)
    requires
        a.same(b),
    ensures
        a.enabled == b.enabled,
        a.cert_path is None <==> b.cert_path is None,
        a.cert_path is Some ==> (a.cert_path->0)@ == (b.cert_path->0)@,
        a.key_path is None <==> b.key_path is None,
        a.key_path is Some ==> (a.key_path->0)@ == (b.key_path->0)@,
        a.acme is None <==> b.acme is None,
        a.acme is Some ==> {
            let (x, y) = (a.acme->0, b.acme->0);
            &&& x.enabled == y.enabled
            &&& x.domains@.len() == y.domains@.len()
            &&& 0 <= i < x.domains@.len() ==> x.domains@[i]@ == y.domains@[i]@
            &&& x.email@ == y.email@
            &&& x.staging == y.staging
            &&& x.cache_dir@ == y.cache_dir@
            &&& x.directory_url is None <==> y.directory_url is None
            &&& x.directory_url is Some ==> (x.directory_url->0)@ == (y.directory_url->0)@
        },
{
    if a.acme is Some {
        let (x, y) = ((a.acme->0).domains@, (b.acme->0).domains@);
        assert(views(x).len() == x.len() && views(y).len() == y.len());
        if 0 <= i < x.len() {
            assert(views(x)[i] == x[i]@ && views(y)[i] == y[i]@);
        }
    }
}

/// Settings that are the same have the same routes, in the same places, and the same fallback.
pub proof fn law_same_upstreams_agree(a: Settings, b: Settings, i: int)
    requires
        a.same(b),
    ensures
        a.server.same(b.server),
        a.upstream.routes@.len() == b.upstream.routes@.len(),
        0 <= i < a.upstream.routes@.len() ==> a.upstream.routes@[i].same(b.upstream.routes@[i]),
        a.upstream.fallback is None <==> b.upstream.fallback is None,
        a.upstream.fallback is Some ==> (a.upstream.fallback->0).same(b.upstream.fallback->0),
{
}

/// Routes that are the same agree in all they say, letter for letter.
pub proof fn law_same_routes_agree(a: UpstreamRoute, b: UpstreamRoute, i: int)
    requires
        a.same(b),
    ensures
        a.path@ == b.path@,
        a.backends@.len() == b.backends@.len(),
        0 <= i < a.backends@.len() ==> a.backends@[i]@ == b.backends@[i]@,
        a.tls == b.tls,
        a.host_header@ == b.host_header@,
        a.health_check == b.health_check,
        a.protocol@ == b.protocol@,
        a.oidc is None <==> b.oidc is None,
        a.oidc is Some ==> {
            let (x, y) = (a.oidc->0, b.oidc->0);
            &&& x.client_id@ == y.client_id@
            &&& x.client_secret@ == y.client_secret@
            &&& x.auth_url@ == y.auth_url@
            &&& x.token_url@ == y.token_url@
            &&& x.redirect_uri@ == y.redirect_uri@
            &&& x.scopes@.len() == y.scopes@.len()
            &&& 0 <= i < x.scopes@.len() ==> x.scopes@[i]@ == y.scopes@[i]@
            &&& x.attributes@.len() == y.attributes@.len()
            &&& 0 <= i < x.attributes@.len() ==> x.attributes@[i].claim@ == y.attributes@[i].claim@
                && x.attributes@[i].header@ == y.attributes@[i].header@
        },
{
    lemma_same_strings(a.backends@, b.backends@, i);
    if a.oidc is Some {
        lemma_same_strings((a.oidc->0).scopes@, (b.oidc->0).scopes@, i);
        if 0 <= i < (a.oidc->0).attributes@.len() {
            assert((a.oidc->0).attributes@[i].same((b.oidc->0).attributes@[i]));
        }
    }
}

proof fn lemma_same_strings(a: Seq<String>, b: Seq<String>, i: int)
    requires
        views(a) == views(b),
    ensures
        a.len() == b.len(),
        0 <= i < a.len() ==> a[i]@ == b[i]@,
{
    assert(views(a).len() == a.len() && views(b).len() == b.len());
    if 0 <= i < a.len() {
        assert(views(a)[i] == a[i]@ && views(b)[i] == b[i]@);
    }
}

/// Settings that are written down leave no value to a default: each one that could be absent is
/// given as it is in force.
pub proof fn law_nothing_written_out_is_left_to_a_default(
    acme: AcmeSource,
    acme_done: AcmeSettings,
    oidc: OidcSource,
    oidc_done: OidcSettings,
    route: RouteSource,
    route_done: UpstreamRoute,
)
    requires
        acme.writes_out(acme_done),
        oidc.writes_out(oidc_done),
        route.writes_out(route_done),
    ensures
        acme.staging == Some(acme_done.staging),
        acme.cache_dir is Some && (acme.cache_dir->0)@ == acme_done.cache_dir@,
        oidc.scopes is Some && (oidc.scopes->0)@.len() == oidc_done.scopes@.len(),
        oidc.attributes is Some && (oidc.attributes->0)@.len() == oidc_done.attributes@.len(),
        route.health_check == Some(route_done.health_check),
        route.protocol is Some && (route.protocol->0)@ == route_done.protocol@,
{
    lemma_same_strings((oidc.scopes->0)@, oidc_done.scopes@, 0);
}

} // verus!
