use gproxy::config::{ServerSettings, Settings, UpstreamRoute, UpstreamSettings};
use gproxy::health::{
    health_results, probe_plan, shows_health, update_health, HealthTable, Probe,
    PROBE_INTERVAL_SECS, PROBE_TIMEOUT_SECS,
};

fn route(backends: &[&str], health_check: bool) -> UpstreamRoute {
    UpstreamRoute {
        path: "/".to_string(),
        backends: backends.iter().map(|b| b.to_string()).collect(),
        tls: false,
        host_header: String::new(),
        health_check,
        protocol: "http2".to_string(),
        oidc: None,
    }
}

fn settings(routes: Vec<UpstreamRoute>, fallback: Option<UpstreamRoute>) -> Settings {
    Settings {
        server: ServerSettings {
            addr: "a".to_string(),
            grace_period_sec: 1,
            log_level: "info".to_string(),
            http_addr: None,
            metrics_addr: None,
            tls: None,
            cookie_secret: None,
        },
        upstream: UpstreamSettings { routes, fallback },
    }
}

fn sorted(list: &[String]) -> Vec<String> {
    let mut list = list.to_vec();
    list.sort();
    list
}

#[test]
fn each_backend_is_planned_once() {
    let s = settings(
        vec![route(&["a", "b", "a"], true), route(&["b", "c"], false)],
        Some(route(&["d", "c"], true)),
    );
    let plan = probe_plan(&s);
    assert_eq!(sorted(&plan.all), vec!["a", "b", "c", "d"]);
    // "c" is not probed by its route but is by the fallback.
    assert_eq!(sorted(&plan.to_check), vec!["a", "b", "c", "d"]);
}

#[test]
fn routes_may_opt_out_of_probing() {
    let s = settings(vec![route(&["a"], true), route(&["b"], false)], Some(route(&["c"], false)));
    let plan = probe_plan(&s);
    assert_eq!(sorted(&plan.all), vec!["a", "b", "c"]);
    assert_eq!(plan.to_check, vec!["a"]);
}

#[test]
fn unprobed_backends_are_healthy() {
    let s = settings(vec![route(&["a"], true), route(&["b"], false)], None);
    let plan = probe_plan(&s);
    let table = health_results(&plan, &vec![("a".to_string(), false)]);
    assert_eq!(table.get("a"), Some(false));
    assert_eq!(table.get("b"), Some(true));
    assert_eq!(table.get("c"), None);
    assert!(!table.is_healthy("a"));
    assert!(table.is_healthy("b"));
    assert!(table.is_healthy("c"));
}

#[test]
fn a_full_round_knows_every_backend() {
    let s = settings(vec![route(&["a", "b"], true)], Some(route(&["c"], false)));
    let plan = probe_plan(&s);
    let table = health_results(&plan, &vec![("b".to_string(), false), ("a".to_string(), true)]);
    assert_eq!(table.get("a"), Some(true));
    assert_eq!(table.get("b"), Some(false));
    assert_eq!(table.get("c"), Some(true));
}

#[test]
fn a_probe_that_did_not_report_leaves_its_backend_out() {
    let s = settings(vec![route(&["a", "b"], true)], None);
    let plan = probe_plan(&s);
    let table = health_results(&plan, &vec![("b".to_string(), false)]);
    assert_eq!(table.get("a"), None);
    assert!(table.is_healthy("a"));
}

#[test]
fn a_round_replaces_what_was_known() {
    let s = settings(vec![route(&["a"], true)], None);
    let plan = probe_plan(&s);
    let mut table = HealthTable::new();
    table.set("gone".to_string(), false);
    update_health(&mut table, &plan, &vec![("a".to_string(), true)]);
    assert_eq!(table.get("gone"), None);
    assert_eq!(table.get("a"), Some(true));
}

#[test]
fn without_backends_what_was_known_stays() {
    let plan = probe_plan(&settings(vec![route(&[], true)], None));
    let mut table = HealthTable::new();
    table.set("gone".to_string(), false);
    update_health(&mut table, &plan, &vec![]);
    assert_eq!(table.get("gone"), Some(false));
}

#[test]
fn probing_times() {
    assert_eq!(PROBE_INTERVAL_SECS, 5);
    assert_eq!(PROBE_TIMEOUT_SECS, 2);
}

#[test]
fn only_an_accepted_connection_shows_health() {
    assert!(shows_health(Probe::Connected));
    for probe in [Probe::LookupFailed, Probe::NoAddress, Probe::Refused, Probe::TimedOut] {
        assert!(!shows_health(probe));
    }
}
