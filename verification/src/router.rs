//! Prefix-and-method routing over an ordered route table.
use vstd::prelude::*;
use crate::config::RouteConfig;
use crate::text::{ascii_lower, is_prefix_of, eq_ignoring_ascii_case, starts_with, eq_ignore_ascii_case};

verus! {

/// An ordered route table; the first route that accepts a request wins.
#[derive(Clone)]
pub struct Router {
    routes: Vec<RouteConfig>,
}

/// `route` admits `method`: it names no methods, or one of its methods equals `method` up to ASCII case.
pub open spec fn method_allowed(route: RouteConfig, method: Seq<char>) -> bool {
    match route.methods {
        None => true,
        Some(ms) => exists|j: int| 0 <= j < ms@.len() && eq_ignoring_ascii_case(#[trigger] ms@[j]@, method),
    }
}

/// `route` accepts a request for `path` with `method`.
pub open spec fn route_accepts(route: RouteConfig, path: Seq<char>, method: Seq<char>) -> bool {
    is_prefix_of(route.path_prefix@, path) && method_allowed(route, method)
}

/// `i` is the position of the first route in `routes` that accepts the request.
pub open spec fn is_first_match(routes: Seq<RouteConfig>, path: Seq<char>, method: Seq<char>, i: int) -> bool {
    &&& 0 <= i < routes.len()
    &&& route_accepts(routes[i], path, method)
    &&& forall|j: int| 0 <= j < i ==> !route_accepts(#[trigger] routes[j], path, method)
}

/// Some route in `routes` accepts the request.
pub open spec fn any_route_accepts(routes: Seq<RouteConfig>, path: Seq<char>, method: Seq<char>) -> bool {
    exists|i: int| 0 <= i < routes.len() && route_accepts(#[trigger] routes[i], path, method)
}

/// Equality up to ASCII case is transitive.
proof fn lemma_eq_ignoring_case_trans(a: Seq<char>, b: Seq<char>, c: Seq<char>)
    requires
        eq_ignoring_ascii_case(a, b),
        eq_ignoring_ascii_case(b, c),
    ensures
        eq_ignoring_ascii_case(a, c),
{
    assert forall|i: int| 0 <= i < a.len() implies ascii_lower(#[trigger] a[i]) == ascii_lower(c[i]) by {
        assert(ascii_lower(a[i]) == ascii_lower(b[i]));
    }
}

/// Equality up to ASCII case is symmetric.
proof fn lemma_eq_ignoring_case_sym(a: Seq<char>, b: Seq<char>)
    requires
        eq_ignoring_ascii_case(a, b),
    ensures
        eq_ignoring_ascii_case(b, a),
{
    assert forall|i: int| 0 <= i < b.len() implies ascii_lower(#[trigger] b[i]) == ascii_lower(a[i]) by {
        assert(ascii_lower(a[i]) == ascii_lower(b[i]));
    }
}

/// Methods are matched without regard to ASCII case: two methods that differ only in the case of
/// ASCII letters are accepted by the same routes, so the same route is chosen for both.
pub proof fn law_method_case_insensitive(routes: Seq<RouteConfig>, path: Seq<char>, m1: Seq<char>, m2: Seq<char>)
    requires
        eq_ignoring_ascii_case(m1, m2),
    ensures
        forall|i: int| 0 <= i < routes.len() ==> (route_accepts(#[trigger] routes[i], path, m1) <==> route_accepts(routes[i], path, m2)),
        any_route_accepts(routes, path, m1) <==> any_route_accepts(routes, path, m2),
        forall|i: int| is_first_match(routes, path, m1, i) <==> #[trigger] is_first_match(routes, path, m2, i),
{
    lemma_eq_ignoring_case_sym(m1, m2);
    assert forall|i: int| 0 <= i < routes.len() implies (route_accepts(#[trigger] routes[i], path, m1) <==> route_accepts(routes[i], path, m2)) by {
        let r = routes[i];
        if let Some(ms) = r.methods {
            if method_allowed(r, m1) {
                let j = choose|j: int| 0 <= j < ms@.len() && eq_ignoring_ascii_case(#[trigger] ms@[j]@, m1);
                lemma_eq_ignoring_case_trans(ms@[j]@, m1, m2);
            }
            if method_allowed(r, m2) {
                let j = choose|j: int| 0 <= j < ms@.len() && eq_ignoring_ascii_case(#[trigger] ms@[j]@, m2);
                lemma_eq_ignoring_case_trans(ms@[j]@, m2, m1);
            }
        }
    }
}

/// A route whose prefix is empty and which names no methods accepts every request, so no request
/// is left unrouted by a table that contains one.
pub proof fn law_catch_all_route(routes: Seq<RouteConfig>, path: Seq<char>, method: Seq<char>, i: int)
    requires
        0 <= i < routes.len(),
        routes[i].path_prefix@.len() == 0,
        routes[i].methods is None,
    ensures
        any_route_accepts(routes, path, method),
{
    assert(path.subrange(0, 0) =~= routes[i].path_prefix@);
    assert(route_accepts(routes[i], path, method));
}

/// There is at most one first match.
pub proof fn law_first_match_unique(routes: Seq<RouteConfig>, path: Seq<char>, method: Seq<char>, i: int, j: int)
    requires
        is_first_match(routes, path, method, i),
        is_first_match(routes, path, method, j),
    ensures
        i == j,
{
}

fn method_listed(methods: &Vec<String>, method: &str) -> (r: bool)
    ensures
        r == exists|j: int| 0 <= j < methods@.len() && eq_ignoring_ascii_case(#[trigger] methods@[j]@, method@),
{
    let mut j: usize = 0;
    while j < methods.len()
        invariant
            j <= methods.len(),
            forall|k: int| 0 <= k < j ==> !eq_ignoring_ascii_case(#[trigger] methods@[k]@, method@),
        decreases methods.len() - j,
    {
        if eq_ignore_ascii_case(methods[j].as_str(), method) {
            return true;
        }
        j = j + 1;
    }
    false
}

impl Router {
    /// A router over `routes`, tried in the given order.
    pub fn new(routes: Vec<RouteConfig>) -> (r: Router)
        ensures
            r@ == routes@,
    {
        Router { routes }
    }

    /// The route table, in order.
    pub closed spec fn view(&self) -> Seq<RouteConfig> {
        self.routes@
    }

    /// The first route whose prefix begins `path` and whose methods, if any, include `method`
    /// (compared without regard to ASCII case); `None` when no route accepts the request.
    pub fn match_route<'a>(&'a self, path: &str, method: &str) -> (r: Option<&'a RouteConfig>)
        ensures
            r is Some <==> any_route_accepts(self@, path@, method@),
            r matches Some(route) ==> exists|i: int| is_first_match(self@, path@, method@, i) && self@[i] == *route,
    {
        let mut i: usize = 0;
        while i < self.routes.len()
            invariant
                i <= self.routes@.len(),
                forall|j: int| 0 <= j < i ==> !route_accepts(#[trigger] self.routes@[j], path@, method@),
            decreases self.routes.len() - i,
        {
            let route = &self.routes[i];
            if starts_with(path, route.path_prefix.as_str()) {
                let allowed = match &route.methods {
                    Some(methods) => method_listed(methods, method),
                    None => true,
                };
                if allowed {
                    assert(is_first_match(self@, path@, method@, i as int));
                    return Some(route);
                }
            }
            i = i + 1;
        }
        None
    }
}

} // verus!
