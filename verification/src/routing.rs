//! Which route serves a path.

use vstd::prelude::*;

use crate::config::{Settings, UpstreamRoute};
use crate::text::starts_with;

verus! {

/// Whether `route` serves `path`: its own path is a prefix of it.
pub open spec fn serves(route: UpstreamRoute, path: Seq<char>) -> bool {
    route.path@.is_prefix_of(path)
}

/// The first of `routes` that serves `path`.
pub open spec fn first_route(routes: Seq<UpstreamRoute>, path: Seq<char>) -> Option<UpstreamRoute>
    decreases routes.len(),
{
    if routes.len() == 0 {
        None
    } else if serves(routes[0], path) {
        Some(routes[0])
    } else {
        first_route(routes.drop_first(), path)
    }
}

/// The route for `path`: the first that serves it, else the fallback.
pub open spec fn route_for(settings: Settings, path: Seq<char>) -> Option<UpstreamRoute> {
    match first_route(settings.upstream.routes@, path) {
        Some(route) => Some(route),
        None => settings.upstream.fallback,
    }
}

/// Finds the first `UpstreamRoute` whose path is a prefix of the request path,
/// or the fallback route where there is none.
pub fn find_route_for_path<'a>(settings: &'a Settings, path: &str) -> (r: Option<&'a UpstreamRoute>)
    ensures
        match r {
            Some(route) => route_for(*settings, path@) == Some(*route),
            None => route_for(*settings, path@) is None,
        },
{
    let routes: &'a Vec<UpstreamRoute> = &settings.upstream.routes;
    let mut i: usize = 0;
    assert(routes@.skip(0) == routes@);
    while i < routes.len()
        invariant
            i <= routes@.len(),
            routes == settings.upstream.routes,
            first_route(routes@.skip(i as int), path@) == first_route(routes@, path@),
        decreases routes@.len() - i,
    {
        if starts_with(path, routes[i].path.as_str()) {
            return Some(&routes[i]);
        }
        assert(routes@.skip(i as int).drop_first() == routes@.skip(i + 1));
        i += 1;
    }
    settings.upstream.fallback.as_ref()
}

/// The chosen route comes before every other route that serves the path: where a
/// route serves `path`, `route_for` is the one with the smallest position.
pub proof fn law_first_match_wins(settings: Settings, path: Seq<char>, i: int)
    requires
        0 <= i < settings.upstream.routes@.len(),
        serves(settings.upstream.routes@[i], path),
        forall|j: int| 0 <= j < i ==> !serves(#[trigger] settings.upstream.routes@[j], path),
    ensures
        route_for(settings, path) == Some(settings.upstream.routes@[i]),
{
    lemma_first_route(settings.upstream.routes@, path, i);
}

proof fn lemma_first_route(routes: Seq<UpstreamRoute>, path: Seq<char>, i: int)
    requires
        0 <= i < routes.len(),
        serves(routes[i], path),
        forall|j: int| 0 <= j < i ==> !serves(#[trigger] routes[j], path),
    ensures
        first_route(routes, path) == Some(routes[i]),
    decreases routes.len(),
{
    if i > 0 {
        let rest = routes.drop_first();
        assert(!serves(routes[0], path));
        assert forall|j: int| 0 <= j < i - 1 implies !serves(#[trigger] rest[j], path) by {
            assert(rest[j] == routes[j + 1]);
        }
        lemma_first_route(rest, path, i - 1);
    }
}

/// The fallback serves exactly the paths that no route serves.
pub proof fn law_fallback_serves_the_rest(settings: Settings, path: Seq<char>)
    requires
        forall|j: int|
            0 <= j < settings.upstream.routes@.len() ==> !serves(
                #[trigger] settings.upstream.routes@[j],
                path,
            ),
    ensures
        route_for(settings, path) == settings.upstream.fallback,
{
    lemma_no_route(settings.upstream.routes@, path);
}

proof fn lemma_no_route(routes: Seq<UpstreamRoute>, path: Seq<char>)
    requires
        forall|j: int| 0 <= j < routes.len() ==> !serves(#[trigger] routes[j], path),
    ensures
        first_route(routes, path) is None,
    decreases routes.len(),
{
    if routes.len() > 0 {
        let rest = routes.drop_first();
        assert(!serves(routes[0], path));
        assert forall|j: int| 0 <= j < rest.len() implies !serves(#[trigger] rest[j], path) by {
            assert(rest[j] == routes[j + 1]);
        }
        lemma_no_route(rest, path);
    }
}

/// A request goes to the first route in order whose whole path is a prefix of the request path,
/// letter for letter.
pub proof fn law_routes_go_by_their_whole_path(settings: Settings, path: Seq<char>, i: int)
    requires
        0 <= i < settings.upstream.routes@.len(),
        settings.upstream.routes@[i].path@.is_prefix_of(path),
        forall|j: int|
            0 <= j < i ==> !(#[trigger] settings.upstream.routes@[j]).path@.is_prefix_of(path),
    ensures
        route_for(settings, path) == Some(settings.upstream.routes@[i]),
{
    law_first_match_wins(settings, path, i);
}

/// A request goes to the fallback, or nowhere if there is none, exactly where the path of no
/// route is a prefix of the request path.
pub proof fn law_only_unmatched_paths_fall_back(settings: Settings, path: Seq<char>)
    requires
        forall|j: int|
            0 <= j < settings.upstream.routes@.len() ==> !(
            #[trigger] settings.upstream.routes@[j]).path@.is_prefix_of(path),
    ensures
        route_for(settings, path) == settings.upstream.fallback,
{
    law_fallback_serves_the_rest(settings, path);
}

/// The route found is the fallback, or a listed route whose path is a prefix of the request path
/// while that of no earlier one is.
pub proof fn law_found_routes_match(settings: Settings, path: Seq<char>)
    ensures
        (exists|i: int|
            0 <= i < settings.upstream.routes@.len() && route_for(settings, path) == Some(
                #[trigger] settings.upstream.routes@[i],
            ) && settings.upstream.routes@[i].path@.is_prefix_of(path) && forall|j: int|
                0 <= j < i ==> !(#[trigger] settings.upstream.routes@[j]).path@.is_prefix_of(path))
            || (route_for(settings, path) == settings.upstream.fallback && forall|j: int|
            0 <= j < settings.upstream.routes@.len() ==> !(
            #[trigger] settings.upstream.routes@[j]).path@.is_prefix_of(path)),
{
    let routes = settings.upstream.routes@;
    if exists|i: int| 0 <= i < routes.len() && (#[trigger] routes[i]).path@.is_prefix_of(path) {
        let i = choose|i: int| 0 <= i < routes.len() && (#[trigger] routes[i]).path@.is_prefix_of(
            path,
        );
        let first = lemma_first_match(routes, path, i);
        law_routes_go_by_their_whole_path(settings, path, first);
        assert(routes[first].path@.is_prefix_of(path));
    } else {
        law_only_unmatched_paths_fall_back(settings, path);
    }
}

/// Among the routes up to one that matches there is a first one that does.
proof fn lemma_first_match(routes: Seq<UpstreamRoute>, path: Seq<char>, i: int) -> (first: int)
    requires
        0 <= i < routes.len(),
        routes[i].path@.is_prefix_of(path),
    ensures
        0 <= first <= i,
        routes[first].path@.is_prefix_of(path),
        forall|j: int| 0 <= j < first ==> !(#[trigger] routes[j]).path@.is_prefix_of(path),
    decreases i,
{
    if exists|j: int| 0 <= j < i && (#[trigger] routes[j]).path@.is_prefix_of(path) {
        let j = choose|j: int| 0 <= j < i && (#[trigger] routes[j]).path@.is_prefix_of(path);
        lemma_first_match(routes, path, j)
    } else {
        i
    }
}

} // verus!
