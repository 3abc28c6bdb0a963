//! The router: a method-keyed table of routes, built during application
//! setup, then shared behind a reader/writer lock and consulted by every
//! request thread. Dispatch scans the routes of the request's method in
//! registration order and invokes the first whose template matches —
//! first match wins, deliberately, so route ordering is the caller's
//! responsibility.

use vstd::prelude::*;
use vstd::rwlock::{RwLock, RwLockPredicate};

use crate::conn::{Conn, ConnModel, spec_try_send_resp};
use crate::plug::Plug;
use crate::re::regex_match;
use crate::request::Method;
use crate::route::{route_invoke_effect, Route, RouteModel};
use crate::template::{spec_compile, TemplateError};
use vstd::string::StringSliceAdditionalSpecFns;

verus! {

/// The view of one ordered route list.
pub open spec fn routes_view<P>(rs: Seq<Route<P>>) -> Seq<RouteModel<P>>
    decreases rs.len(),
{
    if rs.len() == 0 {
        Seq::empty()
    } else {
        routes_view(rs.drop_last()).push(rs.last().model())
    }
}

/// The method-keyed map denoted by the table entries.
pub open spec fn table_map_of<P>(s: Seq<(Method, Vec<Route<P>>)>) -> Map<
    Method,
    Seq<RouteModel<P>>,
>
    decreases s.len(),
{
    if s.len() == 0 {
        Map::empty()
    } else {
        table_map_of(s.drop_last()).insert(s.last().0, routes_view(s.last().1@))
    }
}

/// The routes registered for a method: none when the method is unknown.
pub open spec fn method_routes<P>(m: Map<Method, Seq<RouteModel<P>>>, method: Method) -> Seq<
    RouteModel<P>,
> {
    if m.contains_key(method) {
        m[method]
    } else {
        Seq::empty()
    }
}

/// Index of the first route in the list whose template matches the path.
pub open spec fn first_match_in<P>(routes: Seq<RouteModel<P>>, path: Seq<char>) -> Option<int>
    decreases routes.len(),
{
    if routes.len() == 0 {
        None
    } else if regex_match(routes[0].source, path) {
        Some(0)
    } else {
        match first_match_in(routes.skip(1), path) {
            Some(j) => Some(j + 1),
            None => None,
        }
    }
}

/// `first_match_in` really is the first match: the route it points at
/// matches, and no earlier route does; `None` means no route matches.
pub proof fn lemma_first_match_in<P>(routes: Seq<RouteModel<P>>, path: Seq<char>)
    ensures
        match first_match_in(routes, path) {
            Some(i) => 0 <= i < routes.len() && regex_match(routes[i].source, path) && forall|
                k: int,
            | 0 <= k < i ==> !regex_match(routes[k].source, path),
            None => forall|k: int|
                0 <= k < routes.len() ==> !regex_match(routes[k].source, path),
        },
    decreases routes.len(),
{
    if routes.len() == 0 {
    } else if regex_match(routes[0].source, path) {
    } else {
        lemma_first_match_in(routes.skip(1), path);
        match first_match_in(routes.skip(1), path) {
            Some(m) => {
                assert(routes.skip(1)[m] == routes[m + 1]);
                assert forall|k: int| 0 <= k < m + 1 implies !regex_match(
                    routes[k].source,
                    path,
                ) by {
                    if k >= 1 {
                        assert(routes.skip(1)[k - 1] == routes[k]);
                    }
                }
            },
            None => {
                assert forall|k: int| 0 <= k < routes.len() implies !regex_match(
                    routes[k].source,
                    path,
                ) by {
                    if k >= 1 {
                        assert(routes.skip(1)[k - 1] == routes[k]);
                    }
                }
            },
        }
    }
}

/// The body of the response a dispatch miss produces.
pub open spec fn not_found_text() -> Seq<u8> {
    "route not found".spec_bytes()
}

/// A dispatch miss: a 404 written only if the connection still waits.
pub open spec fn spec_not_found<P>(c: ConnModel<P>) -> ConnModel<P> {
    spec_try_send_resp(c, 404, not_found_text())
}

/// What dispatch does: no routes for the method, or no matching route,
/// yields the 404 miss; otherwise the first matching route is invoked.
pub open spec fn dispatch_effect<P: Plug>(
    table: Map<Method, Seq<RouteModel<P>>>,
    pre: ConnModel<P>,
) -> ConnModel<P> {
    if !table.contains_key(pre.req.method) {
        spec_not_found(pre)
    } else {
        let routes = table[pre.req.method];
        match first_match_in(routes, pre.req.path) {
            None => spec_not_found(pre),
            Some(i) => route_invoke_effect(routes[i], pre),
        }
    }
}

/// Dispatch never selects a route that stands behind a matching one: if
/// the route at `i` matches the path, the route chosen is at `i` or
/// earlier — in particular, when an earlier and a later route both match,
/// the earlier one is invoked and the later one never is.
pub proof fn lemma_dispatch_prefers_earlier<P: Plug>(
    table: Map<Method, Seq<RouteModel<P>>>,
    pre: ConnModel<P>,
    i: int,
)
    requires
        table.contains_key(pre.req.method),
        0 <= i < table[pre.req.method].len(),
        regex_match(table[pre.req.method][i].source, pre.req.path),
    ensures
        first_match_in(table[pre.req.method], pre.req.path) matches Some(m) && 0 <= m <= i
            && dispatch_effect(table, pre) == route_invoke_effect(table[pre.req.method][m], pre),
{
    let routes = table[pre.req.method];
    lemma_first_match_in(routes, pre.req.path);
    match first_match_in(routes, pre.req.path) {
        Some(m) => {
            if m > i {
                assert(!regex_match(routes[i].source, pre.req.path));
            }
        },
        None => {
            assert(!regex_match(routes[i].source, pre.req.path));
        },
    }
}

proof fn lemma_table_absent_suffix<P>(s: Seq<(Method, Vec<Route<P>>)>, j: int, m: Method)
    requires
        0 <= j <= s.len(),
        forall|l: int| j <= l < s.len() ==> s[l].0 != m,
    ensures
        table_map_of(s).contains_key(m) == table_map_of(s.take(j)).contains_key(m),
        table_map_of(s).contains_key(m) ==> table_map_of(s)[m] == table_map_of(s.take(j))[m],
    decreases s.len() - j,
{
    if j == s.len() {
        assert(s.take(j) =~= s);
    } else {
        let shorter = s.drop_last();
        assert(s.last().0 != m);
        lemma_table_absent_suffix(shorter, j, m);
        assert(shorter.take(j) =~= s.take(j));
    }
}

/// With unique methods, the table maps an entry's method to exactly that
/// entry's routes.
proof fn lemma_table_lookup<P>(s: Seq<(Method, Vec<Route<P>>)>, j: int)
    requires
        0 <= j < s.len(),
        forall|a: int, b: int| 0 <= a < b < s.len() ==> s[a].0 != s[b].0,
    ensures
        table_map_of(s).contains_key(s[j].0),
        table_map_of(s)[s[j].0] == routes_view(s[j].1@),
    decreases s.len(),
{
    if j == s.len() - 1 {
    } else {
        let shorter = s.drop_last();
        lemma_table_lookup(shorter, j);
        assert(s.last().0 == s[s.len() - 1].0);
        assert(s[j].0 != s[s.len() - 1].0);
    }
}

/// Updating the route list of the entry at `j` updates the denoted map at
/// that entry's method alone.
proof fn lemma_table_update<P>(
    s: Seq<(Method, Vec<Route<P>>)>,
    j: int,
    e: (Method, Vec<Route<P>>),
)
    requires
        0 <= j < s.len(),
        forall|a: int, b: int| 0 <= a < b < s.len() ==> s[a].0 != s[b].0,
        e.0 == s[j].0,
    ensures
        table_map_of(s.update(j, e)) == table_map_of(s).insert(e.0, routes_view(e.1@)),
    decreases s.len(),
{
    if j == s.len() - 1 {
        assert(s.update(j, e).drop_last() =~= s.drop_last());
        assert(s.update(j, e).last() == e);
        assert(table_map_of(s.update(j, e)) =~= table_map_of(s).insert(e.0, routes_view(e.1@)));
    } else {
        let shorter = s.drop_last();
        lemma_table_update(shorter, j, e);
        assert(s.update(j, e).drop_last() =~= shorter.update(j, e));
        assert(s.update(j, e).last() == s.last());
        assert(s[j].0 != s[s.len() - 1].0);
        assert(table_map_of(s.update(j, e)) =~= table_map_of(s).insert(e.0, routes_view(e.1@)));
    }
}

/// The ordered, method-keyed route table. It is assembled during
/// application setup and handed to a `Router`, which seals it behind the
/// shared lock.
pub struct RouteTable<P> {
    entries: Vec<(Method, Vec<Route<P>>)>,
}

impl<P> RouteTable<P> {
    /// Methods are unique and every route's matcher is well-formed.
    pub closed spec fn wf(&self) -> bool {
        (forall|a: int, b: int|
            0 <= a < b < self.entries@.len() ==> self.entries@[a].0 != self.entries@[b].0)
            && (forall|a: int, r: int|
            0 <= a < self.entries@.len() && 0 <= r < #[trigger] self.entries@[a].1@.len()
                ==> (#[trigger] self.entries@[a].1@[r]).wf())
    }

    /// The method-keyed map of route models this table denotes.
    pub closed spec fn model(&self) -> Map<Method, Seq<RouteModel<P>>> {
        table_map_of(self.entries@)
    }

    /// An empty table.
    pub fn new() -> (r: Self)
        ensures
            r.wf(),
            r.model() == Map::<Method, Seq<RouteModel<P>>>::empty(),
    {
        RouteTable { entries: Vec::new() }
    }
}

impl<P: Plug> RouteTable<P> {
    /// Compiles the template and appends the route to the method's list,
    /// preserving registration order. A malformed template fails fast,
    /// here, and leaves the table unchanged.
    pub fn add_route(&mut self, method: Method, pattern: &str, handler: P) -> (r: Result<
        (),
        TemplateError,
    >)
        requires
            old(self).wf(),
        ensures
            final(self).wf(),
            match spec_compile(pattern@) {
                Err(e) => r matches Err(re) && re == e && final(self).model() == old(self).model(),
                Ok(sp) => (r is Ok <==> crate::re::regex_compiles(sp.0)) && match r {
                    Ok(_) => final(self).model() == old(self).model().insert(
                        method,
                        method_routes(old(self).model(), method).push(
                            RouteModel { names: sp.1, source: sp.0, handler: handler },
                        ),
                    ),
                    Err(re) => re == TemplateError::BadPattern && final(self).model() == old(
                        self,
                    ).model(),
                },
            },
    {
        let route = match Route::new(pattern, handler) {
            Ok(route) => route,
            Err(e) => {
                return Err(e);
            },
        };
        let ghost rm = route.model();
        let n: usize = self.entries.len();
        let mut j: usize = 0;
        while j < n && !(self.entries[j].0 == method)
            invariant
                j <= n,
                n == self.entries@.len(),
                forall|l: int| 0 <= l < j ==> self.entries@[l].0 != method,
            decreases n - j,
    {
            j += 1;
        }
        if j < n {
            proof {
                lemma_table_lookup(self.entries@, j as int);
            }
            let ghost pre_entries = self.entries@;
            let ghost pre_list = self.entries@[j as int].1@;
            let slot = &mut self.entries[j];
            slot.1.push(route);
            proof {
                assert(self.entries@ =~= pre_entries.update(
                    j as int,
                    (pre_entries[j as int].0, self.entries@[j as int].1),
                ));
                assert(self.entries@[j as int].1@ =~= pre_list.push(route));
                assert(routes_view(pre_list.push(route)).drop_last() =~= routes_view(
                    pre_list.push(route).drop_last(),
                ));
                assert(pre_list.push(route).drop_last() =~= pre_list);
                lemma_table_update(
                    pre_entries,
                    j as int,
                    (pre_entries[j as int].0, self.entries[j as int].1),
                );
            }
            Ok(())
        } else {
            proof {
                lemma_table_absent_suffix(self.entries@, 0, method);
                assert(self.entries@.take(0) =~= Seq::<(Method, Vec<Route<P>>)>::empty());
            }
            let mut list: Vec<Route<P>> = Vec::new();
            list.push(route);
            let ghost pre_entries = self.entries@;
            self.entries.push((method, list));
            proof {
                assert(self.entries@.drop_last() =~= pre_entries);
                assert(self.entries@.last().1@ =~= seq![route]);
                assert(routes_view(seq![route]).drop_last() =~= routes_view(
                    seq![route].drop_last(),
                ));
                assert(seq![route].drop_last() =~= Seq::<Route<P>>::empty());
                assert(routes_view(seq![route]) =~= Seq::<RouteModel<P>>::empty().push(rm));
                assert(method_routes(old(self).model(), method) =~= Seq::<RouteModel<P>>::empty());
            }
            Ok(())
        }
    }

    /// Registers a route for `Method::Get`, builder style.
    pub fn get(self, pattern: &str, handler: P) -> (r: Result<Self, TemplateError>)
        requires
            self.wf(),
        ensures
            match spec_compile(pattern@) {
                Err(e) => r matches Err(re) && re == e,
                Ok(sp) => (r is Ok <==> crate::re::regex_compiles(sp.0)) && match r {
                    Ok(t) => t.wf() && t.model() == self.model().insert(
                        Method::Get,
                        method_routes(self.model(), Method::Get).push(
                            RouteModel { names: sp.1, source: sp.0, handler: handler },
                        ),
                    ),
                    Err(re) => re == TemplateError::BadPattern,
                },
            },
    {
        let mut table = self;
        match table.add_route(Method::Get, pattern, handler) {
            Ok(_) => Ok(table),
            Err(e) => Err(e),
        }
    }

    /// Registers a route for `Method::Post`, builder style.
    pub fn post(self, pattern: &str, handler: P) -> (r: Result<Self, TemplateError>)
        requires
            self.wf(),
        ensures
            match spec_compile(pattern@) {
                Err(e) => r matches Err(re) && re == e,
                Ok(sp) => (r is Ok <==> crate::re::regex_compiles(sp.0)) && match r {
                    Ok(t) => t.wf() && t.model() == self.model().insert(
                        Method::Post,
                        method_routes(self.model(), Method::Post).push(
                            RouteModel { names: sp.1, source: sp.0, handler: handler },
                        ),
                    ),
                    Err(re) => re == TemplateError::BadPattern,
                },
            },
    {
        let mut table = self;
        match table.add_route(Method::Post, pattern, handler) {
            Ok(_) => Ok(table),
            Err(e) => Err(e),
        }
    }

    /// Matches the connection's method and path against the table and
    /// invokes the first matching route; a miss writes the 404 response.
    pub fn dispatch_on(&self, conn: &mut Conn<P>)
        requires
            self.wf(),
        ensures
            final(conn)@ == dispatch_effect(self.model(), old(conn)@),
    {
        let n: usize = self.entries.len();
        let mut j: usize = n;
        while j > 0
            invariant
                j <= n,
                n == self.entries@.len(),
                self.wf(),
                forall|l: int| j <= l < n ==> self.entries@[l].0 != conn@.req.method,
                conn@ == old(conn)@,
            decreases j,
        {
            j -= 1;
            let method = self.request_method(conn);
            if self.entries[j].0 == method {
                proof {
                    lemma_table_lookup(self.entries@, j as int);
                }
                self.dispatch_list(j, conn);
                return ;
            }
        }
        proof {
            lemma_table_absent_suffix(self.entries@, 0, conn@.req.method);
            assert(self.entries@.take(0) =~= Seq::<(Method, Vec<Route<P>>)>::empty());
        }
        conn.try_send_resp(404, "route not found");
    }

    /// The request's method, read off the connection.
    fn request_method(&self, conn: &Conn<P>) -> (r: Method)
        ensures
            r == conn@.req.method,
    {
        conn.req().method
    }

    /// Scans one method's route list in registration order and invokes
    /// the first match; a miss writes the 404 response.
    fn dispatch_list(&self, j: usize, conn: &mut Conn<P>)
        requires
            self.wf(),
            j < self.entries@.len(),
        ensures
            ({
                let routes = routes_view(self.entries@[j as int].1@);
                final(conn)@ == match first_match_in(routes, old(conn)@.req.path) {
                    None => spec_not_found(old(conn)@),
                    Some(i) => route_invoke_effect(routes[i], old(conn)@),
                }
            }),
    {
        let ghost routes = routes_view(self.entries@[j as int].1@);
        proof {
            lemma_routes_view_index(self.entries@[j as int].1@);
            lemma_first_match_in(routes, old(conn)@.req.path);
        }
        let list = &self.entries[j].1;
        let m: usize = list.len();
        let mut i: usize = 0;
        while i < m
            invariant
                i <= m,
                m == list@.len(),
                list@ == self.entries@[j as int].1@,
                routes == routes_view(list@),
                routes.len() == m,
                forall|l: int| 0 <= l < m ==> routes[l] == #[trigger] list@[l].model(),
                forall|l: int| 0 <= l < m ==> (#[trigger] list@[l]).wf(),
                conn@ == old(conn)@,
                forall|l: int| 0 <= l < i ==> !regex_match(routes[l].source, conn@.req.path),
            decreases m - i,
        {
            let hit = list[i].matches(conn.req().path.as_str());
            if hit {
                proof {
                    lemma_first_match_in(routes, conn@.req.path);
                }
                list[i].invoke_handler(conn);
                return ;
            }
            i += 1;
        }
        proof {
            lemma_first_match_in(routes, conn@.req.path);
        }
        conn.try_send_resp(404, "route not found");
    }
}

/// Each position of a route list's view is that route's model, and table
/// well-formedness makes each of them well-formed.
proof fn lemma_routes_view_index<P>(rs: Seq<Route<P>>)
    ensures
        routes_view(rs).len() == rs.len(),
        forall|l: int| 0 <= l < rs.len() ==> routes_view(rs)[l] == #[trigger] rs[l].model(),
    decreases rs.len(),
{
    if rs.len() > 0 {
        lemma_routes_view_index(rs.drop_last());
        assert forall|l: int| 0 <= l < rs.len() implies routes_view(rs)[l] == #[trigger] rs[
            l
        ].model() by {
            if l < rs.len() - 1 {
                assert(rs.drop_last()[l] == rs[l]);
                assert(routes_view(rs)[l] == routes_view(rs.drop_last())[l]);
            } else {
                assert(rs.last() == rs[l]);
            }
        }
    }
}

/// The lock predicate a router seals its table with: the stored table is
/// well-formed and denotes the map fixed at construction.
pub struct RouterInv<P> {
    pub model: Map<Method, Seq<RouteModel<P>>>,
}

impl<P> RwLockPredicate<RouteTable<P>> for RouterInv<P> {
    open spec fn inv(self, t: RouteTable<P>) -> bool {
        t.wf() && t.model() == self.model
    }
}

/// The router plug: the finished route table behind a reader/writer
/// lock. Each dispatch takes a read lock, so request threads look routes
/// up concurrently; the table's contents are fixed when the router is
/// built, during application setup.
pub struct Router<P> {
    table: RwLock<RouteTable<P>, RouterInv<P>>,
}

impl<P: Plug> Router<P> {
    /// The method-keyed route map this router dispatches over.
    pub closed spec fn model(&self) -> Map<Method, Seq<RouteModel<P>>> {
        self.table.pred().model
    }

    /// Seals a finished route table for shared use.
    pub fn new(table: RouteTable<P>) -> (r: Router<P>)
        requires
            table.wf(),
        ensures
            r.model() == table.model(),
    {
        let ghost inv = RouterInv { model: table.model() };
        Router { table: RwLock::new(table, Ghost(inv)) }
    }

    /// Dispatches the connection: under a read lock, the first route of
    /// the connection's method whose template matches the path is
    /// invoked; a miss yields the 404 response. The read lock is held
    /// across the handler invocation, not only the lookup: the table is
    /// never written after sealing, so readers never block each other,
    /// and a handler may register routes into a different, not yet
    /// sealed table without deadlock. Restructure the lock scope if
    /// post-seal writes are ever introduced.
    pub fn dispatch(&self, conn: &mut Conn<P>)
        ensures
            final(conn)@ == dispatch_effect(self.model(), old(conn)@),
    {
        let read_handle = self.table.acquire_read();
        let table = read_handle.borrow();
        table.dispatch_on(conn);
        read_handle.release_read();
    }
}

} // verus!
