//! The route table: bindings of routes to handlers, and the lookup of a path.

use vstd::prelude::*;
use vstd::string::*;
use crate::text::str_eq;

verus! {

/// A route and the handler that serves it.
pub struct Handler<H> {
    route: String,
    handler: H,
}

/// What a `Handler` holds.
pub struct Binding<H> {
    pub route: Seq<char>,
    pub handler: H,
}

impl<H> View for Handler<H> {
    type V = Binding<H>;

    closed spec fn view(&self) -> Binding<H> {
        Binding { route: self.route@, handler: self.handler }
    }
}

impl<H> Handler<H> {
    /// Binds `handler` to `route`.
    pub fn new(route: &str, handler: H) -> (r: Handler<H>)
        ensures
            r@ == (Binding { route: route@, handler }),
    {
        Handler { route: String::from_str(route), handler }
    }

    /// The route.
    pub fn route(&self) -> (r: &str)
        ensures
            r@ == self@.route,
    {
        self.route.as_str()
    }

    /// The handler.
    pub fn handler(&self) -> (r: &H)
        ensures
            *r == self@.handler,
    {
        &self.handler
    }
}

impl<H: Clone> Clone for Handler<H> {
    fn clone(&self) -> (r: Self)
        ensures
            r@.route == self@.route,
            cloned(self@.handler, r@.handler),
    {
        Handler { route: self.route.clone(), handler: self.handler.clone() }
    }
}

/// The bindings of a route table, in the order of registration.
pub open spec fn bindings<H>(routes: Seq<Handler<H>>) -> Seq<Binding<H>> {
    routes.map_values(|h: Handler<H>| h@)
}

/// The route that is reserved for the handler of requests that no other route serves.
pub open spec fn not_found_route() -> Seq<char> {
    seq!['4', '0', '4']
}

/// Whether some binding of `table` has the route `path`.
pub open spec fn is_bound<H>(table: Seq<Binding<H>>, path: Seq<char>) -> bool {
    exists|i: int| 0 <= i < table.len() && #[trigger] table[i].route == path
}

/// Whether the binding of index `i` is the first of `table` with the route `path`.
pub open spec fn first_match<H>(table: Seq<Binding<H>>, path: Seq<char>, i: int) -> bool {
    &&& 0 <= i < table.len()
    &&& table[i].route == path
    &&& forall|j: int| 0 <= j < i ==> #[trigger] table[j].route != path
}

/// Whether the binding of index `i` is the last of `table` with the reserved route.
pub open spec fn last_fallback<H>(table: Seq<Binding<H>>, i: int) -> bool {
    &&& 0 <= i < table.len()
    &&& table[i].route == not_found_route()
    &&& forall|j: int| i < j < table.len() ==> #[trigger] table[j].route != not_found_route()
}

/// Whether a lookup of `path` in `table` ends at `found`: at the first binding with that
/// route; where there is none, at the last binding with the reserved route; where there is
/// none either, nowhere.
pub open spec fn resolves_to<H>(table: Seq<Binding<H>>, path: Seq<char>, found: Option<
    usize,
>) -> bool {
    match found {
        Some(i) => first_match(table, path, i as int) || (!is_bound(table, path) && last_fallback(
            table,
            i as int,
        )),
        None => !is_bound(table, path) && !is_bound(table, not_found_route()),
    }
}

/// What a route table must be like: it starts with the binding of the reserved route, no
/// route is empty and no route is bound twice.
pub open spec fn table_wf<H>(table: Seq<Binding<H>>) -> bool {
    &&& table.len() > 0
    &&& table[0].route == not_found_route()
    &&& forall|i: int| 0 <= i < table.len() ==> (#[trigger] table[i].route).len() > 0
    &&& forall|i: int, j: int|
        0 <= i < j < table.len() ==> #[trigger] table[i].route != #[trigger] table[j].route
}

/// A lookup has one outcome.
pub proof fn lemma_lookup_unique<H>(
    table: Seq<Binding<H>>,
    path: Seq<char>,
    found: Option<usize>,
    other: Option<usize>,
)
    requires
        resolves_to(table, path, found),
        resolves_to(table, path, other),
    ensures
        found == other,
{
    match (found, other) {
        (Some(i), Some(j)) => {
            if first_match(table, path, i as int) {
                assert(table[i as int].route == path);
                assert(first_match(table, path, j as int));
                if i < j {
                    assert(table[i as int].route != path);
                } else if j < i {
                    assert(table[j as int].route != path);
                }
            } else {
                if first_match(table, path, j as int) {
                    assert(table[j as int].route == path);
                }
                if i < j {
                    assert(table[j as int].route != not_found_route());
                } else if j < i {
                    assert(table[i as int].route != not_found_route());
                }
            }
        },
        (Some(i), None) => {
            if first_match(table, path, i as int) {
                assert(table[i as int].route == path);
            } else {
                assert(table[i as int].route == not_found_route());
            }
        },
        (None, Some(j)) => {
            if first_match(table, path, j as int) {
                assert(table[j as int].route == path);
            } else {
                assert(table[j as int].route == not_found_route());
            }
        },
        (None, None) => {},
    }
}

/// In a well-formed table, a path that no binding has ends at the binding of the
/// reserved route, the first of the table.
pub proof fn lemma_unbound_path_falls_back<H>(
    table: Seq<Binding<H>>,
    path: Seq<char>,
    found: Option<usize>,
)
    requires
        table_wf(table),
        !is_bound(table, path),
        resolves_to(table, path, found),
    ensures
        found == Some(0usize),
{
    assert(table[0].route == not_found_route());
    match found {
        Some(i) => {
            if first_match(table, path, i as int) {
                assert(table[i as int].route == path);
            }
            if i > 0 {
                assert(table[0].route != table[i as int].route);
            }
        },
        None => {},
    }
}

/// Replacing the handler of the reserved route leaves the table well formed and binds
/// the same routes; a path that no binding has then ends at the new handler.
pub proof fn lemma_fallback_follows_replacement<H>(
    table: Seq<Binding<H>>,
    callback: H,
    path: Seq<char>,
    found: Option<usize>,
)
    requires
        table_wf(table),
        !is_bound(table, path),
        resolves_to(
            table.update(0, Binding { route: not_found_route(), handler: callback }),
            path,
            found,
        ),
    ensures
        table_wf(table.update(0, Binding { route: not_found_route(), handler: callback })),
        found == Some(0usize),
        table.update(0, Binding { route: not_found_route(), handler: callback })[0].handler
            == callback,
{
    let after = table.update(0, Binding { route: not_found_route(), handler: callback });
    assert forall|i: int| 0 <= i < after.len() implies #[trigger] after[i].route
        == table[i].route by {}
    assert forall|i: int| 0 <= i < after.len() implies (#[trigger] after[i].route).len() > 0 by {
        assert(after[i].route == table[i].route);
    }
    assert forall|i: int, j: int| 0 <= i < j < after.len() implies #[trigger] after[i].route
        != #[trigger] after[j].route by {
        assert(after[i].route == table[i].route);
        assert(after[j].route == table[j].route);
    }
    if is_bound(after, path) {
        let i = choose|i: int| 0 <= i < after.len() && #[trigger] after[i].route == path;
        assert(table[i].route == path);
    }
    lemma_unbound_path_falls_back(after, path, found);
}

/// A route that was registered is bound: it cannot be registered a second time.
pub proof fn lemma_added_route_is_bound<H>(table: Seq<Binding<H>>, route: Seq<char>, handler: H)
    ensures
        is_bound(table.push(Binding { route, handler }), route),
{
    let after = table.push(Binding { route, handler });
    assert(after[table.len() as int].route == route);
}

/// A lookup in a snapshot of a table ends where the lookup in the table ends.
pub proof fn lemma_snapshot_lookup<H: Clone>(
    table: Seq<Binding<H>>,
    copy: Seq<Binding<H>>,
    path: Seq<char>,
    found: Option<usize>,
)
    requires
        snapshot_of(table, copy),
    ensures
        resolves_to(copy, path, found) == resolves_to(table, path, found),
{
    assert forall|p: Seq<char>| is_bound(copy, p) == is_bound(table, p) by {
        if is_bound(copy, p) {
            let i = choose|i: int| 0 <= i < copy.len() && #[trigger] copy[i].route == p;
            assert(table[i].route == p);
        }
        if is_bound(table, p) {
            let i = choose|i: int| 0 <= i < table.len() && #[trigger] table[i].route == p;
            assert(copy[i].route == table[i].route);
        }
    }
    assert forall|i: int| first_match(copy, path, i) == first_match(table, path, i) by {
        if 0 <= i < table.len() {
            assert(copy[i].route == table[i].route);
            if first_match(copy, path, i) {
                assert forall|j: int| 0 <= j < i implies #[trigger] table[j].route != path by {
                    assert(copy[j].route == table[j].route);
                }
            }
            if first_match(table, path, i) {
                assert forall|j: int| 0 <= j < i implies #[trigger] copy[j].route != path by {
                    assert(copy[j].route == table[j].route);
                }
            }
        }
    }
    assert forall|i: int| last_fallback(copy, i) == last_fallback(table, i) by {
        if 0 <= i < table.len() {
            assert(copy[i].route == table[i].route);
            if last_fallback(copy, i) {
                assert forall|j: int| i < j < table.len() implies #[trigger] table[j].route
                    != not_found_route() by {
                    assert(copy[j].route == table[j].route);
                }
            }
            if last_fallback(table, i) {
                assert forall|j: int| i < j < copy.len() implies #[trigger] copy[j].route
                    != not_found_route() by {
                    assert(copy[j].route == table[j].route);
                }
            }
        }
    }
}

/// Looks `path` up in `routes`, scanning them in order.
pub fn find_handler<H>(routes: &Vec<Handler<H>>, path: &str) -> (r: Option<usize>)
    ensures
        resolves_to(bindings(routes@), path@, r),
{
    proof {
        reveal_strlit("404");
        assert("404"@ =~= not_found_route());
    }
    let ghost table = bindings(routes@);
    let mut fallback: Option<usize> = None;
    let mut i: usize = 0;
    while i < routes.len()
        invariant
            i <= routes.len(),
            table == bindings(routes@),
            "404"@ == not_found_route(),
            forall|j: int| 0 <= j < i ==> #[trigger] table[j].route != path@,
            match fallback {
                Some(f) => f < i && table[f as int].route == not_found_route() && forall|j: int|
                    f < j < i ==> #[trigger] table[j].route != not_found_route(),
                None => forall|j: int| 0 <= j < i ==> #[trigger] table[j].route != not_found_route(),
            },
        decreases routes.len() - i,
    {
        assert(table[i as int] == routes@[i as int]@);
        if str_eq(routes[i].route(), path) {
            return Some(i);
        } else if str_eq(routes[i].route(), "404") {
            fallback = Some(i);
        }
        i = i + 1;
    }
    fallback
}

/// Whether `copy` is a snapshot of `table`: the same routes in the same order, each with a
/// clone of its handler.
pub open spec fn snapshot_of<H: Clone>(table: Seq<Binding<H>>, copy: Seq<Binding<H>>) -> bool {
    &&& copy.len() == table.len()
    &&& forall|i: int|
        0 <= i < table.len() ==> (#[trigger] copy[i]).route == table[i].route && cloned(
            table[i].handler,
            copy[i].handler,
        )
}

/// A copy of a route table for one connection.
pub fn clone_routes<H: Clone>(routes: &Vec<Handler<H>>) -> (r: Vec<Handler<H>>)
    ensures
        snapshot_of(bindings(routes@), bindings(r@)),
{
    let mut r: Vec<Handler<H>> = Vec::new();
    let mut i: usize = 0;
    while i < routes.len()
        invariant
            i <= routes.len(),
            r.len() == i,
            forall|j: int|
                0 <= j < i ==> (#[trigger] r@[j])@.route == routes@[j]@.route && cloned(
                    routes@[j]@.handler,
                    r@[j]@.handler,
                ),
        decreases routes.len() - i,
    {
        r.push(routes[i].clone());
        i = i + 1;
    }
    assert forall|j: int| 0 <= j < routes.len() implies (#[trigger] bindings(r@)[j]).route
        == bindings(routes@)[j].route && cloned(
        bindings(routes@)[j].handler,
        bindings(r@)[j].handler,
    ) by {
        assert(r@[j]@.route == routes@[j]@.route);
    }
    r
}

} // verus!
