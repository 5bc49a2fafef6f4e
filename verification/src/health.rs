//! Which backends are probed, and what the probes' outcomes mean.

use vstd::hash_map::StringHashMap;
use vstd::prelude::*;

use crate::config::{Settings, UpstreamRoute, UpstreamSettings};
use crate::text::{lemma_views_push, list_contains, views};

verus! {

/// The pause between two rounds of probing, in seconds.
pub const PROBE_INTERVAL_SECS: u64 = 5;

/// How long a backend has to accept the connection of a probe, in seconds.
pub const PROBE_TIMEOUT_SECS: u64 = 2;

/// What is known of each backend: `true` for healthy, `false` for unhealthy.
pub struct HealthTable {
    entries: StringHashMap<bool>,
}

impl View for HealthTable {
    type V = Map<Seq<char>, bool>;

    closed spec fn view(&self) -> Map<Seq<char>, bool> {
        self.entries@
    }
}

/// Whether a backend counts as healthy: it does unless it is known to be unhealthy.
pub open spec fn counts_as_healthy(table: Map<Seq<char>, bool>, addr: Seq<char>) -> bool {
    table.contains_key(addr) ==> table[addr]
}

impl HealthTable {
    /// A table that knows of no backend.
    pub fn new() -> (r: Self)
        ensures
            r@ == Map::<Seq<char>, bool>::empty(),
    {
        HealthTable { entries: StringHashMap::new() }
    }

    /// Notes the state of one backend.
    pub fn set(&mut self, addr: String, healthy: bool)
        ensures
            final(self)@ == old(self)@.insert(addr@, healthy),
    {
        self.entries.insert(addr, healthy);
    }

    /// What is known of one backend.
    pub fn get(&self, addr: &str) -> (r: Option<bool>)
        ensures
            r == (if self@.contains_key(addr@) {
                Some(self@[addr@])
            } else {
                None
            }),
    {
        match self.entries.get(addr) {
            Some(healthy) => Some(*healthy),
            None => None,
        }
    }

    /// Whether a backend counts as healthy.
    pub fn is_healthy(&self, addr: &str) -> (r: bool)
        ensures
            r == counts_as_healthy(self@, addr@),
    {
        match self.get(addr) {
            Some(healthy) => healthy,
            None => true,
        }
    }
}

/// Whether `route` sends requests to `addr`.
pub open spec fn lists(route: UpstreamRoute, addr: Seq<char>) -> bool {
    views(route.backends@).contains(addr)
}

/// Whether any route, or the fallback, sends requests to `addr`.
pub open spec fn is_backend(upstream: UpstreamSettings, addr: Seq<char>) -> bool {
    ||| exists|i: int| 0 <= i < upstream.routes@.len() && lists(#[trigger] upstream.routes@[i], addr)
    ||| upstream.fallback is Some && lists(upstream.fallback->0, addr)
}

/// Whether any route, or the fallback, sends requests to `addr` and asks for it to be probed.
pub open spec fn is_probed(upstream: UpstreamSettings, addr: Seq<char>) -> bool {
    ||| exists|i: int|
        0 <= i < upstream.routes@.len() && lists(#[trigger] upstream.routes@[i], addr)
            && upstream.routes@[i].health_check
    ||| upstream.fallback is Some && lists(upstream.fallback->0, addr)
        && upstream.fallback->0.health_check
}

/// The backends of one round of probing, each once.
pub struct ProbePlan {
    /// Those to be probed.
    pub to_check: Vec<String>,
    /// All of them.
    pub all: Vec<String>,
}

/// Adds `item` unless it is there already.
fn add_once(list: &mut Vec<String>, item: &String)
    requires
        views(old(list)@).no_duplicates(),
    ensures
        views(final(list)@).no_duplicates(),
        forall|a: Seq<char>| #[trigger]
            views(final(list)@).contains(a) <==> views(old(list)@).contains(a) || a == item@,
{
    if !list_contains(list, item) {
        let ghost before = views(list@);
        let copy: String = item.clone();
        proof {
            lemma_views_push(list@, copy);
        }
        list.push(copy);
        proof {
            let after = views(list@);
            assert forall|a: Seq<char>| #[trigger]
                after.contains(a) <==> before.contains(a) || a == item@ by {
                if before.contains(a) {
                    let i = choose|i: int| 0 <= i < before.len() && before[i] == a;
                    assert(after[i] == a);
                }
                assert(after[before.len() as int] == item@);
            }
        }
    }
}

/// Adds the backends of one route.
fn add_route(plan: &mut ProbePlan, route: &UpstreamRoute)
    requires
        views(old(plan).to_check@).no_duplicates(),
        views(old(plan).all@).no_duplicates(),
    ensures
        views(final(plan).to_check@).no_duplicates(),
        views(final(plan).all@).no_duplicates(),
        forall|a: Seq<char>| #[trigger]
            views(final(plan).all@).contains(a) <==> views(old(plan).all@).contains(a) || lists(
                *route,
                a,
            ),
        forall|a: Seq<char>| #[trigger]
            views(final(plan).to_check@).contains(a) <==> views(old(plan).to_check@).contains(a)
                || (route.health_check && lists(*route, a)),
{
    let backends: &Vec<String> = &route.backends;
    let mut i: usize = 0;
    while i < backends.len()
        invariant
            i <= backends@.len(),
            backends == route.backends,
            views(plan.to_check@).no_duplicates(),
            views(plan.all@).no_duplicates(),
            forall|a: Seq<char>| #[trigger]
                views(plan.all@).contains(a) <==> views(old(plan).all@).contains(a) || views(
                    backends@,
                ).take(i as int).contains(a),
            forall|a: Seq<char>| #[trigger]
                views(plan.to_check@).contains(a) <==> views(old(plan).to_check@).contains(a)
                    || (route.health_check && views(backends@).take(i as int).contains(a)),
        decreases backends@.len() - i,
    {
        let ghost prev = views(backends@).take(i as int);
        let ghost next = views(backends@).take(i + 1);
        add_once(&mut plan.all, &backends[i]);
        if route.health_check {
            add_once(&mut plan.to_check, &backends[i]);
        }
        proof {
            assert(next == prev.push(backends@[i as int]@));
            assert forall|a: Seq<char>| #[trigger]
                next.contains(a) <==> prev.contains(a) || a == backends@[i as int]@ by {
                if prev.contains(a) {
                    let j = choose|j: int| 0 <= j < prev.len() && prev[j] == a;
                    assert(next[j] == a);
                }
                assert(next[i as int] == backends@[i as int]@);
            }
        }
        i += 1;
    }
    assert(views(backends@).take(i as int) == views(backends@));
}

/// Collects the backends of the current settings: each once, and among them those
/// that some route wants probed.
pub fn probe_plan(settings: &Settings) -> (plan: ProbePlan)
    ensures
        views(plan.all@).no_duplicates(),
        views(plan.to_check@).no_duplicates(),
        forall|a: Seq<char>| #[trigger]
            views(plan.all@).contains(a) <==> is_backend(settings.upstream, a),
        forall|a: Seq<char>| #[trigger]
            views(plan.to_check@).contains(a) <==> is_probed(settings.upstream, a),
{
    let mut plan: ProbePlan = ProbePlan { to_check: Vec::new(), all: Vec::new() };
    let routes: &Vec<UpstreamRoute> = &settings.upstream.routes;
    let mut i: usize = 0;
    while i < routes.len()
        invariant
            i <= routes@.len(),
            routes == settings.upstream.routes,
            views(plan.all@).no_duplicates(),
            views(plan.to_check@).no_duplicates(),
            forall|a: Seq<char>| #[trigger]
                views(plan.all@).contains(a) <==> exists|j: int|
                    0 <= j < i && lists(#[trigger] routes@[j], a),
            forall|a: Seq<char>| #[trigger]
                views(plan.to_check@).contains(a) <==> exists|j: int|
                    0 <= j < i && lists(#[trigger] routes@[j], a) && routes@[j].health_check,
        decreases routes@.len() - i,
    {
        let ghost before = plan;
        add_route(&mut plan, &routes[i]);
        proof {
            assert forall|a: Seq<char>| #[trigger]
                views(plan.all@).contains(a) <==> exists|j: int|
                    0 <= j < i + 1 && lists(#[trigger] routes@[j], a) by {
                if views(before.all@).contains(a) {
                    let j = choose|j: int| 0 <= j < i && lists(#[trigger] routes@[j], a);
                    assert(lists(routes@[j], a));
                }
                if lists(routes@[i as int], a) {
                    assert(0 <= i as int && i < i + 1 && lists(routes@[i as int], a));
                }
            }
            assert forall|a: Seq<char>| #[trigger]
                views(plan.to_check@).contains(a) <==> exists|j: int|
                    0 <= j < i + 1 && lists(#[trigger] routes@[j], a)
                        && routes@[j].health_check by {
                if views(before.to_check@).contains(a) {
                    let j = choose|j: int|
                        0 <= j < i && lists(#[trigger] routes@[j], a) && routes@[j].health_check;
                    assert(lists(routes@[j], a));
                }
                if lists(routes@[i as int], a) && routes@[i as int].health_check {
                    assert(0 <= i as int && i < i + 1 && lists(routes@[i as int], a));
                }
            }
        }
        i += 1;
    }
    if let Some(fallback) = &settings.upstream.fallback {
        add_route(&mut plan, fallback);
    }
    plan
}

/// How far a probe of a backend got.
#[derive(Debug, Clone, Copy, PartialEq, Eq, Structural)]
pub enum Probe {
    /// The name of the backend could not be looked up.
    LookupFailed,
    /// The name stands for no address.
    NoAddress,
    /// The first address did not accept a connection.
    Refused,
    /// The first address did not accept a connection in time.
    TimedOut,
    /// The first address accepted a connection in time.
    Connected,
}

/// Whether a probe shows that its backend is healthy: only an accepted connection does.
pub fn shows_health(probe: Probe) -> (r: bool)
    ensures
        r == (probe == Probe::Connected),
{
    match probe {
        Probe::Connected => true,
        _ => false,
    }
}

/// The characters of each address with its outcome, in order.
pub open spec fn outcome_views(outcomes: Seq<(String, bool)>) -> Seq<(Seq<char>, bool)> {
    outcomes.map_values(|o: (String, bool)| (o.0@, o.1))
}

/// The backends that are not probed, all healthy.
pub open spec fn unprobed(plan: ProbePlan) -> Map<Seq<char>, bool> {
    Map::new(
        |a: Seq<char>| views(plan.all@).contains(a) && !views(plan.to_check@).contains(a),
        |a: Seq<char>| true,
    )
}

/// `table` after noting `outcomes` one by one.
pub open spec fn noted(
    table: Map<Seq<char>, bool>,
    outcomes: Seq<(Seq<char>, bool)>,
) -> Map<Seq<char>, bool>
    decreases outcomes.len(),
{
    if outcomes.len() == 0 {
        table
    } else {
        noted(table, outcomes.drop_last()).insert(outcomes.last().0, outcomes.last().1)
    }
}

/// What a round of probing says of every backend: those not probed are healthy,
/// the others are as their probes found them. A backend whose probe did not report
/// is left out.
pub fn health_results(plan: &ProbePlan, outcomes: &Vec<(String, bool)>) -> (r: HealthTable)
    ensures
        r@ == noted(unprobed(*plan), outcome_views(outcomes@)),
{
    let mut table: HealthTable = HealthTable::new();
    let mut i: usize = 0;
    while i < plan.all.len()
        invariant
            i <= plan.all@.len(),
            forall|a: Seq<char>| #[trigger]
                table@.contains_key(a) <==> views(plan.all@).take(i as int).contains(a) && !views(
                    plan.to_check@,
                ).contains(a),
            forall|a: Seq<char>| table@.contains_key(a) ==> #[trigger] table@[a],
        decreases plan.all@.len() - i,
    {
        let ghost prev = views(plan.all@).take(i as int);
        let ghost next = views(plan.all@).take(i + 1);
        if !list_contains(&plan.to_check, &plan.all[i]) {
            table.set(plan.all[i].clone(), true);
        }
        proof {
            assert(next == prev.push(plan.all@[i as int]@));
            assert forall|a: Seq<char>| #[trigger]
                next.contains(a) <==> prev.contains(a) || a == plan.all@[i as int]@ by {
                if prev.contains(a) {
                    let j = choose|j: int| 0 <= j < prev.len() && prev[j] == a;
                    assert(next[j] == a);
                }
                assert(next[i as int] == plan.all@[i as int]@);
            }
        }
        i += 1;
    }
    assert(views(plan.all@).take(i as int) == views(plan.all@));
    assert(table@ =~= unprobed(*plan));
    let mut k: usize = 0;
    assert(outcome_views(outcomes@).take(0) == Seq::<(Seq<char>, bool)>::empty());
    while k < outcomes.len()
        invariant
            k <= outcomes@.len(),
            table@ == noted(unprobed(*plan), outcome_views(outcomes@).take(k as int)),
        decreases outcomes@.len() - k,
    {
        let ghost next = outcome_views(outcomes@).take(k + 1);
        assert(next.drop_last() == outcome_views(outcomes@).take(k as int));
        assert(next.last() == (outcomes@[k as int].0@, outcomes@[k as int].1));
        table.set(outcomes[k].0.clone(), outcomes[k].1);
        k += 1;
    }
    assert(outcome_views(outcomes@).take(k as int) == outcome_views(outcomes@));
    table
}

/// Replaces what is known of the backends after a round of probing; with no
/// backend at all, what was known stays.
pub fn update_health(
    table: &mut HealthTable,
    plan: &ProbePlan,
    outcomes: &Vec<(String, bool)>,
)
    ensures
        final(table)@ == (if plan.all@.len() == 0 {
            old(table)@
        } else {
            noted(unprobed(*plan), outcome_views(outcomes@))
        }),
{
    if plan.all.len() > 0 {
        *table = health_results(plan, outcomes);
    }
}

/// Whether `outcomes` reports on `addr`.
pub open spec fn reports_on(outcomes: Seq<(Seq<char>, bool)>, addr: Seq<char>) -> bool {
    exists|i: int| 0 <= i < outcomes.len() && (#[trigger] outcomes[i]).0 == addr
}

/// Noting outcomes adds the addresses that they report on.
proof fn lemma_noted_keys(
    table: Map<Seq<char>, bool>,
    outcomes: Seq<(Seq<char>, bool)>,
    addr: Seq<char>,
)
    ensures
        noted(table, outcomes).contains_key(addr) <==> table.contains_key(addr) || reports_on(
            outcomes,
            addr,
        ),
        !reports_on(outcomes, addr) && table.contains_key(addr) ==> noted(table, outcomes)[addr]
            == table[addr],
    decreases outcomes.len(),
{
    if outcomes.len() > 0 {
        let front = outcomes.drop_last();
        let last = outcomes.len() - 1;
        lemma_noted_keys(table, front, addr);
        if reports_on(front, addr) {
            let i = choose|i: int| 0 <= i < front.len() && (#[trigger] front[i]).0 == addr;
            assert(outcomes[i].0 == addr);
        }
        if outcomes[last].0 == addr {
            assert(reports_on(outcomes, addr));
        } else if reports_on(outcomes, addr) {
            let i = choose|i: int| 0 <= i < outcomes.len() && (#[trigger] outcomes[i]).0 == addr;
            assert(front[i].0 == addr);
        }
    }
}

/// Of the outcomes for one address the last is noted.
proof fn lemma_last_outcome_counts(
    table: Map<Seq<char>, bool>,
    outcomes: Seq<(Seq<char>, bool)>,
    i: int,
)
    requires
        0 <= i < outcomes.len(),
        forall|j: int| i < j < outcomes.len() ==> (#[trigger] outcomes[j]).0 != outcomes[i].0,
    ensures
        noted(table, outcomes)[outcomes[i].0] == outcomes[i].1,
    decreases outcomes.len(),
{
    let last = outcomes.len() - 1;
    if i < last {
        let front = outcomes.drop_last();
        assert(outcomes[last].0 != outcomes[i].0);
        assert forall|j: int| i < j < front.len() implies (#[trigger] front[j]).0 != front[i].0 by {
            assert(front[j] == outcomes[j]);
        }
        lemma_last_outcome_counts(table, front, i);
    }
}

/// A backend that no route wants probed is healthy after every round in which only
/// probed backends are reported on.
pub proof fn law_unprobed_backends_are_healthy(
    upstream: UpstreamSettings,
    plan: ProbePlan,
    outcomes: Seq<(Seq<char>, bool)>,
    addr: Seq<char>,
)
    requires
        forall|a: Seq<char>| #[trigger] views(plan.all@).contains(a) <==> is_backend(upstream, a),
        forall|a: Seq<char>| #[trigger]
            views(plan.to_check@).contains(a) <==> is_probed(upstream, a),
        forall|i: int|
            0 <= i < outcomes.len() ==> is_probed(upstream, (#[trigger] outcomes[i]).0),
        is_backend(upstream, addr),
        !is_probed(upstream, addr),
    ensures
        noted(unprobed(plan), outcomes).contains_key(addr),
        noted(unprobed(plan), outcomes)[addr],
{
    assert(views(plan.all@).contains(addr));
    assert(!views(plan.to_check@).contains(addr));
    lemma_noted_keys(unprobed(plan), outcomes, addr);
}

/// A round in which every probed backend is reported on once knows exactly the
/// configured backends, and of each probed one what its probe found.
pub proof fn law_a_full_round_knows_every_backend(
    upstream: UpstreamSettings,
    plan: ProbePlan,
    outcomes: Seq<(Seq<char>, bool)>,
    addr: Seq<char>,
)
    requires
        forall|a: Seq<char>| #[trigger] views(plan.all@).contains(a) <==> is_backend(upstream, a),
        forall|a: Seq<char>| #[trigger]
            views(plan.to_check@).contains(a) <==> is_probed(upstream, a),
        forall|a: Seq<char>| #[trigger] reports_on(outcomes, a) <==> is_probed(upstream, a),
        forall|i: int, j: int|
            0 <= i < j < outcomes.len() ==> (#[trigger] outcomes[i]).0 != (#[trigger] outcomes[j]).0,
    ensures
        noted(unprobed(plan), outcomes).contains_key(addr) <==> is_backend(upstream, addr),
        forall|i: int|
            0 <= i < outcomes.len() && (#[trigger] outcomes[i]).0 == addr ==> noted(
                unprobed(plan),
                outcomes,
            )[addr] == outcomes[i].1,
{
    lemma_noted_keys(unprobed(plan), outcomes, addr);
    assert forall|i: int| 0 <= i < outcomes.len() && (#[trigger] outcomes[i]).0 == addr implies noted(
        unprobed(plan),
        outcomes,
    )[addr] == outcomes[i].1 by {
        lemma_last_outcome_counts(unprobed(plan), outcomes, i);
    }
    assert(views(plan.all@).contains(addr) <==> is_backend(upstream, addr));
    assert(views(plan.to_check@).contains(addr) <==> is_probed(upstream, addr));
    assert(reports_on(outcomes, addr) <==> is_probed(upstream, addr));
}

/// A backend counts as unhealthy exactly where the table holds `false` under its very address.
pub proof fn law_only_a_recorded_failure_makes_unhealthy(
    table: Map<Seq<char>, bool>,
    addr: Seq<char>,
)
    ensures
        table.contains_key(addr) && !table[addr] ==> !counts_as_healthy(table, addr),
        !table.contains_key(addr) || table[addr] ==> counts_as_healthy(table, addr),
        counts_as_healthy(table.insert(addr, true), addr),
        !counts_as_healthy(table.insert(addr, false), addr),
        counts_as_healthy(table.remove(addr), addr),
{
}

/// What is noted of one address says nothing of another.
pub proof fn law_health_is_kept_per_address(
    table: Map<Seq<char>, bool>,
    addr: Seq<char>,
    other: Seq<char>,
    healthy: bool,
)
    requires
        addr != other,
    ensures
        counts_as_healthy(table.insert(other, healthy), addr) == counts_as_healthy(table, addr),
{
}

/// The backends are the addresses that a route or the fallback lists, letter for letter; the
/// probed ones are those listed where probing is asked for.
pub proof fn law_backends_are_the_listed_addresses(upstream: UpstreamSettings, addr: Seq<char>)
    ensures
        is_backend(upstream, addr) <==> (exists|i: int, j: int|
            #![trigger upstream.routes@[i].backends@[j]]
            0 <= i < upstream.routes@.len() && 0 <= j < upstream.routes@[i].backends@.len()
                && upstream.routes@[i].backends@[j]@ == addr) || (upstream.fallback is Some && exists|
            j: int,
        |
            0 <= j < upstream.fallback->0.backends@.len() && (
            #[trigger] upstream.fallback->0.backends@[j])@ == addr),
        is_probed(upstream, addr) <==> (exists|i: int, j: int|
            #![trigger upstream.routes@[i].backends@[j]]
            0 <= i < upstream.routes@.len() && 0 <= j < upstream.routes@[i].backends@.len()
                && upstream.routes@[i].backends@[j]@ == addr && upstream.routes@[i].health_check)
            || (upstream.fallback is Some && upstream.fallback->0.health_check && exists|j: int|
            0 <= j < upstream.fallback->0.backends@.len() && (
            #[trigger] upstream.fallback->0.backends@[j])@ == addr),
{
    assert forall|i: int| 0 <= i < upstream.routes@.len() implies lists(
        #[trigger] upstream.routes@[i],
        addr,
    ) == (exists|j: int|
        0 <= j < upstream.routes@[i].backends@.len() && (
        #[trigger] upstream.routes@[i].backends@[j])@ == addr) by {
        lemma_lists(upstream.routes@[i], addr);
    }
    if let Some(fallback) = upstream.fallback {
        lemma_lists(fallback, addr);
    }
}

proof fn lemma_lists(route: UpstreamRoute, addr: Seq<char>)
    ensures
        lists(route, addr) <==> exists|j: int|
            0 <= j < route.backends@.len() && (#[trigger] route.backends@[j])@ == addr,
{
    let all = views(route.backends@);
    if lists(route, addr) {
        let j = choose|j: int| 0 <= j < all.len() && all[j] == addr;
        assert(route.backends@[j]@ == addr);
    }
    if exists|j: int| 0 <= j < route.backends@.len() && (#[trigger] route.backends@[j])@ == addr {
        let j = choose|j: int|
            0 <= j < route.backends@.len() && (#[trigger] route.backends@[j])@ == addr;
        assert(all[j] == addr);
    }
}

/// Before any outcome is noted, a round knows exactly the planned backends that are not to be
/// probed, as healthy.
pub proof fn law_unprobed_backends_start_healthy(plan: ProbePlan, addr: Seq<char>)
    ensures
        unprobed(plan).contains_key(addr) <==> (exists|i: int|
            0 <= i < plan.all@.len() && (#[trigger] plan.all@[i])@ == addr) && !(exists|i: int|
            0 <= i < plan.to_check@.len() && (#[trigger] plan.to_check@[i])@ == addr),
        unprobed(plan).contains_key(addr) ==> unprobed(plan)[addr],
{
    lemma_views_contain(plan.all@, addr);
    lemma_views_contain(plan.to_check@, addr);
}

proof fn lemma_views_contain(list: Seq<String>, addr: Seq<char>)
    ensures
        views(list).contains(addr) <==> exists|i: int|
            0 <= i < list.len() && (#[trigger] list[i])@ == addr,
{
    if views(list).contains(addr) {
        let i = choose|i: int| 0 <= i < views(list).len() && views(list)[i] == addr;
        assert(list[i]@ == addr);
    }
    if exists|i: int| 0 <= i < list.len() && (#[trigger] list[i])@ == addr {
        let i = choose|i: int| 0 <= i < list.len() && (#[trigger] list[i])@ == addr;
        assert(views(list)[i] == addr);
    }
}

/// Outcomes are noted one after another, each under its own address.
pub proof fn law_outcomes_are_noted_in_order(
    table: Map<Seq<char>, bool>,
    outcomes: Seq<(Seq<char>, bool)>,
    addr: Seq<char>,
    healthy: bool,
)
    ensures
        noted(table, Seq::empty()) == table,
        noted(table, outcomes.push((addr, healthy))) == noted(table, outcomes).insert(
            addr,
            healthy,
        ),
{
    assert(outcomes.push((addr, healthy)).drop_last() == outcomes);
}

/// The content of a list of outcomes is the address and the finding of each, one by one.
pub proof fn law_outcome_views_go_one_by_one(outcomes: Seq<(String, bool)>, i: int)
    ensures
        outcome_views(outcomes).len() == outcomes.len(),
        0 <= i < outcomes.len() ==> outcome_views(outcomes)[i].0 == outcomes[i].0@
            && outcome_views(outcomes)[i].1 == outcomes[i].1,
{
}

} // verus!
