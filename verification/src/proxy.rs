//! The proxy proper: which requests it answers itself, and where it sends the rest.

use vstd::prelude::*;
use vstd::utf8::encode_utf8;

use crate::auth::{callback_step, guarded, handle_oidc, OidcStep, OidcStepView, TokenRequest};
use crate::config::{Settings, SettingsSource, UpstreamRoute};
use crate::error::ProxyError;
use crate::health::{
    counts_as_healthy, law_only_a_recorded_failure_makes_unhealthy, HealthTable,
};
use crate::http::{
    json_reply, json_response, text_reply, text_response, typed_reply, typed_response, Request,
    Response, ResponseView,
};
use crate::routing::{find_route_for_path, route_for};
use crate::text::{appended, copy_list, lemma_views_push, pair_views, same_str, views};
use crate::urls::form_text;

verus! {

/// Per-request context that carries OIDC-injected headers to `upstream_request_filter`.
pub struct RequestContext {
    pub oidc_headers: Vec<(String, String)>,
}

/// The state of the proxy.
pub struct GrpcProxy {
    pub settings: Settings,
    /// How many requests have been given a backend, modulo the range of the type.
    pub counter: usize,
    pub healthy_backends: HealthTable,
    /// Secret used to sign / verify the local OIDC session cookie (HMAC-HS256).
    pub cookie_secret: Vec<u8>,
}

/// The protocol offered to a backend.
#[derive(Debug, Clone, Copy, PartialEq, Eq, Structural)]
pub enum Alpn {
    Http1,
    Http2,
}

/// Where a request is sent, and how.
pub struct Peer {
    pub address: String,
    pub tls: bool,
    pub host_header: String,
    pub alpn: Alpn,
}

/// What becomes of a request before a backend is asked.
pub enum FilterStep {
    /// It goes on to its backend.
    Proceed,
    /// It is answered at once.
    Reply(Response),
    /// It is answered with the settings in force: see `config_response`.
    ShowConfig,
    /// Its body holds new settings: see `GrpcProxy::reload` and `reload_response`.
    ReloadConfig,
    /// An authorization code is to be exchanged: see `finish_callback`.
    Exchange(TokenRequest),
}

/// Whether `step` is how the proxy goes on after the step `oidc` of the guard.
pub open spec fn follows_guard(step: FilterStep, oidc: OidcStepView) -> bool {
    match oidc {
        OidcStepView::Proceed => step is Proceed,
        OidcStepView::Reply(response) => step matches FilterStep::Reply(r) && r@ == response,
        OidcStepView::Exchange { token_url, form, state } => {
            &&& step matches FilterStep::Exchange(request)
            &&& request.token_url@ == token_url
            &&& pair_views(request.form@) == form
            &&& request.state@ == state
        },
    }
}

/// Whether the proxy answers a request for itself, whatever its settings.
pub open spec fn is_own_endpoint(request: Request) -> bool {
    ||| request.is_get("/health"@)
    ||| request.is_get("/metrics"@)
    ||| request.is_get("/_config"@)
    ||| request.is_post("/_config"@)
}

/// The backends of `backends` that count as healthy, in order.
pub open spec fn healthy_of(backends: Seq<Seq<char>>, table: Map<Seq<char>, bool>) -> Seq<Seq<char>> {
    backends.filter(|b: Seq<char>| counts_as_healthy(table, b))
}

/// The backends between which requests go round: the healthy ones, or all of them if
/// none is healthy.
pub open spec fn candidates(backends: Seq<Seq<char>>, table: Map<Seq<char>, bool>) -> Seq<Seq<char>> {
    if healthy_of(backends, table).len() == 0 {
        backends
    } else {
        healthy_of(backends, table)
    }
}

/// The place that comes up at a given count.
pub open spec fn turn_of(candidates: nat, counter: nat) -> nat {
    counter % candidates
}

/// The backend whose turn it is.
pub open spec fn whose_turn(candidates: Seq<Seq<char>>, counter: nat) -> Seq<char> {
    candidates[turn_of(candidates.len(), counter) as int]
}

/// Whether `peer` is how the backend at `address` is reached over `route`.
pub open spec fn reaches(peer: Peer, route: UpstreamRoute, address: Seq<char>) -> bool {
    &&& peer.address@ == address
    &&& peer.tls == route.tls
    &&& peer.host_header@ == route.host_header@
    &&& peer.alpn == (if route.protocol@ == "http1"@ {
        Alpn::Http1
    } else {
        Alpn::Http2
    })
}

/// Collects the backends between which requests go round.
pub fn candidate_backends(backends: &Vec<String>, table: &HealthTable) -> (r: Vec<String>)
    ensures
        views(r@) == candidates(views(backends@), table@),
{
    let mut healthy: Vec<String> = Vec::new();
    let ghost healthy_test = |b: Seq<char>| counts_as_healthy(table@, b);
    let mut i: usize = 0;
    proof {
        reveal(Seq::filter);
        assert(views(healthy@) =~= views(backends@).take(0).filter(healthy_test));
    }
    while i < backends.len()
        invariant
            i <= backends@.len(),
            healthy_test == (|b: Seq<char>| counts_as_healthy(table@, b)),
            views(healthy@) == views(backends@).take(i as int).filter(healthy_test),
        decreases backends@.len() - i,
    {
        let ghost next = views(backends@).take(i + 1);
        proof {
            reveal(Seq::filter);
            assert(next.drop_last() == views(backends@).take(i as int));
            assert(next.last() == backends@[i as int]@);
        }
        if table.is_healthy(backends[i].as_str()) {
            let copy: String = backends[i].clone();
            proof {
                lemma_views_push(healthy@, copy);
            }
            healthy.push(copy);
        }
        i += 1;
    }
    assert(views(backends@).take(i as int) == views(backends@));
    if healthy.len() == 0 {
        copy_list(backends)
    } else {
        healthy
    }
}

/// Which protocol a route's backends are offered: `http1` means HTTP/1.1, anything else HTTP/2.
pub fn alpn_for(protocol: &str) -> (r: Alpn)
    ensures
        r == (if protocol@ == "http1"@ {
            Alpn::Http1
        } else {
            Alpn::Http2
        }),
{
    if same_str(protocol, "http1") {
        Alpn::Http1
    } else {
        Alpn::Http2
    }
}

/// What becomes of a request to one of the proxy's own endpoints, which needs nothing of the
/// proxy's state; `None` for any other request.
pub fn own_endpoint(request: &Request) -> (r: Option<FilterStep>)
    ensures
        r is Some <==> is_own_endpoint(*request),
        request.is_get("/health"@) ==> (r matches Some(FilterStep::Reply(response)) && response@
            == json_reply(200, "{\"status\":\"healthy\"}\n"@)),
        request.is_get("/metrics"@) ==> (r matches Some(FilterStep::Reply(response)) && shows_metrics(
            response@,
        )),
        request.is_get("/_config"@) ==> r == Some(FilterStep::ShowConfig),
        request.is_post("/_config"@) ==> r == Some(FilterStep::ReloadConfig),
{
    proof {
        lemma_own_paths_differ();
    }
    let get: bool = same_str(request.method.as_str(), "GET");
    let path: &str = request.path.as_str();
    if get && same_str(path, "/health") {
        return Some(FilterStep::Reply(json_response(200, "{\"status\":\"healthy\"}\n")));
    }
    if get && same_str(path, "/metrics") {
        return Some(FilterStep::Reply(metrics_response(encode_metrics())));
    }
    if get && same_str(path, "/_config") {
        return Some(FilterStep::ShowConfig);
    }
    if same_str(request.method.as_str(), "POST") && same_str(path, "/_config") {
        return Some(FilterStep::ReloadConfig);
    }
    None
}

impl GrpcProxy {
    /// A fresh context for a request.
    pub fn new_ctx(&self) -> (r: RequestContext)
        ensures
            r.oidc_headers@.len() == 0,
    {
        RequestContext { oidc_headers: Vec::new() }
    }

    /// Decides what becomes of a request: the proxy's own endpoints come first, then the
    /// OIDC guard.
    pub fn request_filter(&self, request: &Request, ctx: &mut RequestContext) -> (r: FilterStep)
        ensures
            is_own_endpoint(*request) ==> final(ctx).oidc_headers@ == old(ctx).oidc_headers@,
            request.is_get("/health"@) ==> (r matches FilterStep::Reply(response) && response@
                == json_reply(200, "{\"status\":\"healthy\"}\n"@)),
            request.is_get("/metrics"@) ==> (r matches FilterStep::Reply(response) && shows_metrics(
                response@,
            )),
            request.is_get("/_config"@) ==> r is ShowConfig,
            request.is_post("/_config"@) ==> r is ReloadConfig,
            !is_own_endpoint(*request) ==> exists|step: OidcStepView|
                follows_guard(r, step) && #[trigger] guarded(
                    *request,
                    self.settings,
                    self.cookie_secret@,
                    pair_views(old(ctx).oidc_headers@),
                    pair_views(final(ctx).oidc_headers@),
                    step,
                ),
            request.is_get("/_oidc/callback"@) ==> forall|params: Seq<(Seq<char>, Seq<char>)>|
                request.query_view() == #[trigger] form_text(params) ==> follows_guard(
                    r,
                    callback_step(self.settings, params),
                ),
    {
        proof {
            lemma_own_paths_differ();
        }
        if let Some(step) = own_endpoint(request) {
            return step;
        }
        let step: OidcStep = handle_oidc(
            request,
            &self.settings,
            self.cookie_secret.as_slice(),
            &mut ctx.oidc_headers,
        );
        assert(guarded(
            *request,
            self.settings,
            self.cookie_secret@,
            pair_views(old(ctx).oidc_headers@),
            pair_views(ctx.oidc_headers@),
            step@,
        ));
        match step {
            OidcStep::Proceed => FilterStep::Proceed,
            OidcStep::Reply(response) => FilterStep::Reply(response),
            OidcStep::Exchange(exchange) => FilterStep::Exchange(exchange),
        }
    }

    /// Hands over the OIDC-derived headers to inject into the upstream request.
    pub fn upstream_request_filter(&self, ctx: &mut RequestContext) -> (r: Vec<(String, String)>)
        ensures
            r == old(ctx).oidc_headers,
            final(ctx).oidc_headers@.len() == 0,
    {
        let mut headers: Vec<(String, String)> = Vec::new();
        std::mem::swap(&mut headers, &mut ctx.oidc_headers);
        headers
    }

    /// Chooses the backend for a request to `path`: of the route that serves it, the healthy
    /// backends take turns, or all of them if none is healthy. The turn passes on only when
    /// a backend is given.
    pub fn upstream_peer(&mut self, path: &str) -> (r: Result<Peer, ProxyError>)
        ensures
            final(self).settings == old(self).settings,
            final(self).healthy_backends == old(self).healthy_backends,
            final(self).cookie_secret == old(self).cookie_secret,
            match route_for(old(self).settings, path@) {
                None => r matches Err(e) && e == ProxyError::NoRouteMatched && final(self).counter
                    == old(self).counter,
                Some(route) => if route.backends@.len() == 0 {
                    r matches Err(e) && e == ProxyError::NoBackends && final(self).counter == old(
                        self,
                    ).counter
                } else {
                    &&& r is Ok
                    &&& reaches(
                        r->Ok_0,
                        route,
                        whose_turn(
                            candidates(views(route.backends@), old(self).healthy_backends@),
                            old(self).counter as nat,
                        ),
                    )
                    &&& final(self).counter == (if old(self).counter == usize::MAX {
                        0
                    } else {
                        old(self).counter + 1
                    })
                },
            },
    {
        let chosen: Peer = match find_route_for_path(&self.settings, path) {
            None => {
                return Err(ProxyError::NoRouteMatched);
            },
            Some(route) => {
                if route.backends.len() == 0 {
                    return Err(ProxyError::NoBackends);
                }
                let list: Vec<String> = candidate_backends(&route.backends, &self.healthy_backends);
                assert(views(list@).len() == list@.len());
                assert(views(route.backends@).len() == route.backends@.len());
                let index: usize = self.counter % list.len();
                assert(views(list@)[index as int] == list@[index as int]@);
                Peer {
                    address: list[index].clone(),
                    tls: route.tls,
                    host_header: route.host_header.clone(),
                    alpn: alpn_for(route.protocol.as_str()),
                }
            },
        };
        self.counter = if self.counter == usize::MAX {
            0
        } else {
            self.counter + 1
        };
        Ok(chosen)
    }

    /// Puts new settings in force; all else stays.
    pub fn reload(&mut self, source: SettingsSource)
        ensures
            source.completed_as(final(self).settings),
            final(self).counter == old(self).counter,
            final(self).healthy_backends == old(self).healthy_backends,
            final(self).cookie_secret == old(self).cookie_secret,
    {
        self.settings = Settings::new(source);
    }
}

/// Whether the metrics of the process, asked for at some time, were this text, or `None` where
/// they could not be encoded.
pub uninterp spec fn is_metrics_reading(encoded: Option<Seq<u8>>) -> bool;

/// The bytes of an encoding, if there is one.
pub open spec fn encoded_view(encoded: Option<Vec<u8>>) -> Option<Seq<u8>> {
    match encoded {
        Some(text) => Some(text@),
        None => None,
    }
}

/// Writes down the metrics of the process, by `prometheus::gather` and
/// `prometheus::TextEncoder`; `None` where they cannot be encoded. They are whatever the process
/// has registered and counted by now, and nothing more is said of the text.
#[verifier::external_body]
fn encode_metrics() -> (r: Option<Vec<u8>>)
    ensures
        is_metrics_reading(encoded_view(r)),
{
    let mut buffer = Vec::new();
    let encoder = prometheus::TextEncoder::new();
    match prometheus::Encoder::encode(&encoder, &prometheus::gather(), &mut buffer) {
        Ok(()) => Some(buffer),
        Err(_) => None,
    }
}

/// The answer to a request for the metrics, from their text form or the failure to make it.
pub open spec fn metrics_reply(encoded: Option<Seq<u8>>) -> ResponseView {
    match encoded {
        Some(text) => typed_reply(200, "text/plain; version=0.0.4"@, text),
        None => text_reply(500, "Failed to encode metrics"@),
    }
}

/// Whether a response shows the metrics of the process, or that they could not be encoded.
pub open spec fn shows_metrics(response: ResponseView) -> bool {
    exists|encoded: Option<Seq<u8>>| #[trigger]
        is_metrics_reading(encoded) && response == metrics_reply(encoded)
}

/// Answers a request for the metrics.
pub fn metrics_response(encoded: Option<Vec<u8>>) -> (r: Response)
    ensures
        r@ == metrics_reply(encoded_view(encoded)),
{
    match encoded {
        Some(text) => typed_response(200, "text/plain; version=0.0.4", text),
        None => text_response(500, "Failed to encode metrics"),
    }
}

/// The answer to a request for the settings in force, from their JSON form.
pub fn config_response(settings_json: Vec<u8>) -> (r: Response)
    ensures
        r@ == typed_reply(200, "application/json"@, settings_json@),
{
    typed_response(200, "application/json", settings_json)
}

/// How a request to change the settings ended.
pub enum Reload {
    /// The new settings are in force.
    Updated,
    /// The settings could not be locked for writing.
    LockFailed,
    /// The body was not a configuration, for the stated reason.
    Invalid(String),
}

/// The answer for each way in which a request to change the settings can end.
pub open spec fn reload_reply(reload: Reload) -> ResponseView {
    match reload {
        Reload::Updated => json_reply(200, "{\"status\":\"updated\"}\n"@),
        Reload::LockFailed => json_reply(500, "{\"error\":\"Internal lock error\"}\n"@),
        Reload::Invalid(reason) => json_reply(
            400,
            "{\"error\":\"Invalid JSON: "@ + reason@ + "\"}\n"@,
        ),
    }
}

/// Answers a request to change the settings.
pub fn reload_response(reload: Reload) -> (r: Response)
    ensures
        r@ == reload_reply(reload),
{
    match reload {
        Reload::Updated => json_response(200, "{\"status\":\"updated\"}\n"),
        Reload::LockFailed => json_response(500, "{\"error\":\"Internal lock error\"}\n"),
        Reload::Invalid(reason) => {
            let start: String = appended("{\"error\":\"Invalid JSON: ", reason.as_str());
            json_response(400, appended(start.as_str(), "\"}\n").as_str())
        },
    }
}

/// No request is for two of the proxy's own endpoints at once.
proof fn lemma_own_paths_differ()
    ensures
        "GET"@ != "POST"@,
        "/health"@ != "/metrics"@,
        "/health"@ != "/_config"@,
        "/metrics"@ != "/_config"@,
        "/_oidc/callback"@ != "/health"@,
        "/_oidc/callback"@ != "/metrics"@,
        "/_oidc/callback"@ != "/_config"@,
{
    reveal_strlit("GET");
    reveal_strlit("POST");
    reveal_strlit("/health");
    reveal_strlit("/metrics");
    reveal_strlit("/_config");
    reveal_strlit("/_oidc/callback");
    assert("GET"@.len() != "POST"@.len());
    assert("/health"@.len() != "/metrics"@.len());
    assert("/health"@.len() != "/_config"@.len());
    assert("/metrics"@[1] != "/_config"@[1]);
    assert("/_oidc/callback"@.len() == 15);
}

/// Every candidate is one of the route's backends.
pub proof fn law_candidates_are_backends(
    backends: Seq<Seq<char>>,
    table: Map<Seq<char>, bool>,
    counter: nat,
)
    requires
        backends.len() > 0,
    ensures
        candidates(backends, table).len() > 0,
        backends.contains(whose_turn(candidates(backends, table), counter)),
{
    let test = |b: Seq<char>| counts_as_healthy(table, b);
    let list = candidates(backends, table);
    let index = (counter % list.len()) as int;
    if healthy_of(backends, table).len() == 0 {
        assert(backends.contains(backends[index]));
    } else {
        lemma_filter_from(backends, test, index);
    }
}

proof fn lemma_filter_from(
    all: Seq<Seq<char>>,
    test: spec_fn(Seq<char>) -> bool,
    i: int,
)
    requires
        0 <= i < all.filter(test).len(),
    ensures
        all.contains(all.filter(test)[i]),
    decreases all.len(),
{
    reveal(Seq::filter);
    if all.len() > 0 {
        let front = all.drop_last();
        if i < front.filter(test).len() {
            lemma_filter_from(front, test, i);
            let item = front.filter(test)[i];
            let j = choose|j: int| 0 <= j < front.len() && front[j] == item;
            assert(all[j] == item);
        } else {
            assert(all.filter(test)[i] == all.last());
            assert(all[all.len() - 1] == all.last());
        }
    }
}

/// A backend known to be unhealthy is never given a request while another of the route's
/// backends counts as healthy.
pub proof fn law_unhealthy_backends_are_avoided(
    backends: Seq<Seq<char>>,
    table: Map<Seq<char>, bool>,
    counter: nat,
    healthy: Seq<char>,
)
    requires
        backends.contains(healthy),
        counts_as_healthy(table, healthy),
    ensures
        counts_as_healthy(table, whose_turn(candidates(backends, table), counter)),
{
    let test = |b: Seq<char>| counts_as_healthy(table, b);
    let k = choose|k: int| 0 <= k < backends.len() && backends[k] == healthy;
    assert(test(backends[k]));
    assert(backends.filter(test).contains(backends[k]));
    let list = healthy_of(backends, table);
    assert(list.len() > 0);
    let index = (counter % list.len()) as int;
    assert(test(list[index]));
}

/// With every backend unhealthy requests still go round all of them.
pub proof fn law_all_unhealthy_means_all_are_used(
    backends: Seq<Seq<char>>,
    table: Map<Seq<char>, bool>,
)
    requires
        forall|i: int| 0 <= i < backends.len() ==> !counts_as_healthy(table, #[trigger] backends[i]),
    ensures
        candidates(backends, table) == backends,
{
    let test = |b: Seq<char>| counts_as_healthy(table, b);
    let list = healthy_of(backends, table);
    if list.len() > 0 {
        assert(test(list[0]));
        lemma_filter_from(backends, test, 0);
        let j = choose|j: int| 0 <= j < backends.len() && backends[j] == list[0];
        assert(!counts_as_healthy(table, backends[j]));
    }
}

/// Turns go round: over as many turns in a row as there are candidates, each candidate's
/// place comes up exactly once. This speaks of turns within the range of the counter, which
/// starts again from zero at its end.
pub proof fn law_turns_go_round(candidates: nat, counter: nat, place: nat)
    requires
        place < candidates,
    ensures
        exists|i: nat| i < candidates && #[trigger] turn_of(candidates, counter + i) == place,
        forall|i: nat, j: nat|
            i < candidates && j < candidates && #[trigger] turn_of(candidates, counter + i) == place
                && #[trigger] turn_of(candidates, counter + j) == place ==> i == j,
{
    let n = candidates as int;
    let c = counter as int;
    let i = (place as int - c) % n;
    vstd::arithmetic::div_mod::lemma_fundamental_div_mod(place as int - c, n);
    vstd::arithmetic::div_mod::lemma_mod_bound(place as int - c, n);
    let q = (place as int - c) / n;
    assert(c + i == place as int + n * (-q)) by {
        assert(n * (-q) == -(n * q)) by (nonlinear_arith);
    }
    vstd::arithmetic::div_mod::lemma_mod_multiples_vanish(-q, place as int, n);
    vstd::arithmetic::div_mod::lemma_small_mod(place, candidates);
    assert(turn_of(candidates, counter + i as nat) == place);
    assert forall|i: nat, j: nat|
        i < candidates && j < candidates && #[trigger] turn_of(candidates, counter + i) == place
            && #[trigger] turn_of(candidates, counter + j) == place implies i == j by {
        lemma_same_turn(candidates, counter, i, j);
    }
}

proof fn lemma_same_turn(n: nat, c: nat, i: nat, j: nat)
    requires
        n > 0,
        i < n,
        j < n,
        (c + i) % n == (c + j) % n,
    ensures
        i == j,
{
    vstd::arithmetic::div_mod::lemma_fundamental_div_mod((c + i) as int, n as int);
    vstd::arithmetic::div_mod::lemma_fundamental_div_mod((c + j) as int, n as int);
    let a = (c + i) as int / n as int;
    let b = (c + j) as int / n as int;
    let m = n as int;
    assert(i - j == m * a - m * b);
    assert(m * a - m * b == m * (a - b)) by (nonlinear_arith);
    assert(a - b == 0) by (nonlinear_arith)
        requires
            -m < m * (a - b) < m,
            m > 0,
    ;
}

/// A backend that the table holds as down under its very address is not chosen while some
/// backend of the route is held as up or is not in the table.
pub proof fn law_a_backend_known_to_be_down_is_not_chosen(
    backends: Seq<Seq<char>>,
    table: Map<Seq<char>, bool>,
    counter: nat,
    up: Seq<char>,
)
    requires
        backends.contains(up),
        table.contains_key(up) ==> table[up],
    ensures
        ({
            let chosen = whose_turn(candidates(backends, table), counter);
            backends.contains(chosen) && (table.contains_key(chosen) ==> table[chosen])
        }),
{
    law_only_a_recorded_failure_makes_unhealthy(table, up);
    law_unhealthy_backends_are_avoided(backends, table, counter, up);
    law_candidates_are_backends(backends, table, counter);
    law_only_a_recorded_failure_makes_unhealthy(
        table,
        whose_turn(candidates(backends, table), counter),
    );
}

/// The candidates are the backends that the table does not hold as down, in their order and as
/// often as they are listed, or all backends where the table holds every one as down.
pub proof fn law_candidates_are_the_backends_not_down(
    backends: Seq<Seq<char>>,
    table: Map<Seq<char>, bool>,
)
    ensures
        (forall|i: int|
            0 <= i < backends.len() ==> table.contains_key(#[trigger] backends[i])
                && !table[backends[i]]) ==> candidates(backends, table) == backends,
        (exists|i: int|
            0 <= i < backends.len() && (table.contains_key(#[trigger] backends[i])
                ==> table[backends[i]])) ==> candidates(backends, table) == backends.filter(
            |b: Seq<char>| !table.contains_key(b) || table[b],
        ),
{
    let test = |b: Seq<char>| counts_as_healthy(table, b);
    let plain = |b: Seq<char>| !table.contains_key(b) || table[b];
    assert forall|b: Seq<char>| #[trigger] test(b) == plain(b) by {
        law_only_a_recorded_failure_makes_unhealthy(table, b);
    }
    lemma_same_filter(backends, test, plain);
    if forall|i: int|
        0 <= i < backends.len() ==> table.contains_key(#[trigger] backends[i])
            && !table[backends[i]] {
        assert forall|i: int| 0 <= i < backends.len() implies !counts_as_healthy(
            table,
            #[trigger] backends[i],
        ) by {
            law_only_a_recorded_failure_makes_unhealthy(table, backends[i]);
        }
        law_all_unhealthy_means_all_are_used(backends, table);
    }
    if exists|i: int|
        0 <= i < backends.len() && (table.contains_key(#[trigger] backends[i])
            ==> table[backends[i]]) {
        let i = choose|i: int|
            0 <= i < backends.len() && (table.contains_key(#[trigger] backends[i])
                ==> table[backends[i]]);
        assert(test(backends[i]));
        assert(backends.filter(test).contains(backends[i]));
    }
}

proof fn lemma_same_filter(
    all: Seq<Seq<char>>,
    a: spec_fn(Seq<char>) -> bool,
    b: spec_fn(Seq<char>) -> bool,
)
    requires
        forall|x: Seq<char>| #[trigger] a(x) == b(x),
    ensures
        all.filter(a) == all.filter(b),
    decreases all.len(),
{
    reveal(Seq::filter);
    if all.len() > 0 {
        lemma_same_filter(all.drop_last(), a, b);
        assert(a(all.last()) == b(all.last()));
    }
}

/// The candidates take turns in their order, one for each count, and start again after the last.
pub proof fn law_turns_follow_the_order(candidates: Seq<Seq<char>>, counter: nat)
    requires
        candidates.len() > 0,
    ensures
        counter < candidates.len() ==> whose_turn(candidates, counter) == candidates[counter as int],
        whose_turn(candidates, counter + candidates.len()) == whose_turn(candidates, counter),
{
    if counter < candidates.len() {
        vstd::arithmetic::div_mod::lemma_small_mod(counter, candidates.len());
    }
    vstd::arithmetic::div_mod::lemma_mod_add_multiples_vanish(
        counter as int,
        candidates.len() as int,
    );
}

/// A backend is reached at its own address, with the TLS and host header of the route, over
/// HTTP/1.1 exactly where the route says `http1`.
pub proof fn law_peers_are_as_the_route_says(peer: Peer, route: UpstreamRoute, address: Seq<char>)
    ensures
        reaches(peer, route, address) <==> {
            &&& peer.address@ == address
            &&& peer.tls == route.tls
            &&& peer.host_header@ == route.host_header@
            &&& peer.alpn == Alpn::Http1 <==> route.protocol@ == "http1"@
        },
{
}

/// The proxy answers four requests itself and no other: `GET /health`, `GET /metrics`, and `GET`
/// and `POST` of `/_config`.
pub proof fn law_own_endpoints(request: Request)
    ensures
        is_own_endpoint(request) <==> {
            ||| request.method@ == "GET"@ && (request.path@ == "/health"@ || request.path@
                == "/metrics"@ || request.path@ == "/_config"@)
            ||| request.method@ == "POST"@ && request.path@ == "/_config"@
        },
{
    lemma_own_paths_differ();
}

/// After the guard the proxy does what the guard says: it goes on, gives the guard's reply as it
/// is, or exchanges the code as the guard asks.
pub proof fn law_the_guard_is_followed(step: FilterStep, oidc: OidcStepView)
    requires
        follows_guard(step, oidc),
    ensures
        oidc is Proceed <==> step is Proceed,
        oidc is Reply <==> step is Reply,
        oidc is Exchange <==> step is Exchange,
        oidc is Reply ==> (step->Reply_0)@ == oidc->Reply_0,
        oidc is Exchange ==> {
            &&& (step->Exchange_0).token_url@ == oidc->token_url
            &&& (step->Exchange_0).state@ == oidc->state
            &&& (step->Exchange_0).form@.len() == oidc->form.len()
            &&& forall|i: int|
                0 <= i < oidc->form.len() ==> (#[trigger] oidc->form[i]).0 == (
                step->Exchange_0).form@[i].0@ && oidc->form[i].1 == (step->Exchange_0).form@[i].1@
        },
{
}

/// The metrics are shown as they were encoded, or their failure is told.
pub proof fn law_metrics_replies(text: Seq<u8>, encoded: Vec<u8>)
    ensures
        metrics_reply(Some(text)).status == 200,
        metrics_reply(Some(text)).headers == seq![("Content-Type"@, "text/plain; version=0.0.4"@)],
        metrics_reply(Some(text)).body == Some(text),
        metrics_reply(None).status == 500,
        metrics_reply(None).headers == seq![("Content-Type"@, "text/plain"@)],
        metrics_reply(None).body == Some(encode_utf8("Failed to encode metrics"@)),
        encoded_view(Some(encoded)) == Some(encoded@),
        encoded_view(None) is None,
{
}

/// A response that shows the metrics is one that was made of what was gathered.
pub proof fn law_shown_metrics_were_gathered(response: ResponseView)
    ensures
        shows_metrics(response) <==> exists|encoded: Option<Seq<u8>>| #[trigger]
            is_metrics_reading(encoded) && response == metrics_reply(encoded),
{
}

/// Each end of a request to change the settings has its own answer, and a refused body is told
/// its whole reason.
pub proof fn law_reload_replies(reason: String)
    ensures
        reload_reply(Reload::Updated).status == 200,
        reload_reply(Reload::Updated).body == Some(encode_utf8("{\"status\":\"updated\"}\n"@)),
        reload_reply(Reload::LockFailed).status == 500,
        reload_reply(Reload::LockFailed).body == Some(
            encode_utf8("{\"error\":\"Internal lock error\"}\n"@),
        ),
        reload_reply(Reload::Invalid(reason)).status == 400,
        reload_reply(Reload::Invalid(reason)).body == Some(
            encode_utf8("{\"error\":\"Invalid JSON: "@ + reason@ + "\"}\n"@),
        ),
        reload_reply(Reload::Updated).headers == seq![("Content-Type"@, "application/json"@)],
        reload_reply(Reload::LockFailed).headers == seq![("Content-Type"@, "application/json"@)],
        reload_reply(Reload::Invalid(reason)).headers == seq![
            ("Content-Type"@, "application/json"@),
        ],
{
}

} // verus!
