//! The flat dispatch table: for each path, the chain of each method.

use vstd::prelude::*;
use vstd::string::*;
use crate::handler::{views, Handler, HandlerView, KindView};
use crate::method::Method;

verus! {

/// One flattened route: the chain that answers `method` on `path`.
#[derive(Debug)]
pub struct Route {
    pub path: String,
    pub method: Method,
    pub chain: Vec<Handler>,
}

/// Mathematical model of a [`Route`].
pub struct RouteView {
    pub path: Seq<char>,
    pub method: Seq<char>,
    pub chain: Seq<HandlerView>,
}

impl View for Route {
    type V = RouteView;

    open spec fn view(&self) -> RouteView {
        RouteView { path: self.path@, method: self.method@, chain: views(self.chain@) }
    }
}

/// The models of a sequence of routes, in order.
pub open spec fn route_views(s: Seq<Route>) -> Seq<RouteView> {
    s.map_values(|r: Route| r@)
}

/// The chain that answers one method on one path.
#[derive(Debug)]
pub struct MethodChain {
    pub method: Method,
    /// Global middleware, then local middleware, then the method handler.
    pub chain: Vec<Handler>,
    /// Set on a GET chain whose path has no HEAD handler of its own: the
    /// chain then answers HEAD requests too.
    pub head_alias: bool,
}

/// Mathematical model of a [`MethodChain`].
pub struct ChainView {
    pub method: Seq<char>,
    pub chain: Seq<HandlerView>,
    pub head_alias: bool,
}

impl View for MethodChain {
    type V = ChainView;

    open spec fn view(&self) -> ChainView {
        ChainView { method: self.method@, chain: views(self.chain@), head_alias: self.head_alias }
    }
}

/// The models of a sequence of chains, in order.
pub open spec fn chain_views(s: Seq<MethodChain>) -> Seq<ChainView> {
    s.map_values(|c: MethodChain| c@)
}

/// All chains registered for one path.
#[derive(Debug)]
pub struct RouteEntry {
    pub path: String,
    pub methods: Vec<MethodChain>,
}

/// Mathematical model of a [`RouteEntry`].
pub struct EntryView {
    pub path: Seq<char>,
    pub methods: Seq<ChainView>,
}

impl View for RouteEntry {
    type V = EntryView;

    open spec fn view(&self) -> EntryView {
        EntryView { path: self.path@, methods: chain_views(self.methods@) }
    }
}

/// The dispatch table, one entry per path, in the order in which the paths
/// were first seen.
#[derive(Debug)]
pub struct RouteTable {
    pub entries: Vec<RouteEntry>,
}

impl View for RouteTable {
    type V = Seq<EntryView>;

    open spec fn view(&self) -> Seq<EntryView> {
        self.entries@.map_values(|e: RouteEntry| e@)
    }
}

/// Two handlers registered for the same method on the same path.
#[derive(Debug)]
pub struct Conflict {
    pub path: String,
    pub method: Method,
    /// Where the handler that was there first was registered.
    pub existing: String,
    /// Where the second handler was registered.
    pub new: String,
}

/// Mathematical model of a [`Conflict`].
pub struct ConflictView {
    pub path: Seq<char>,
    pub method: Seq<char>,
    pub existing: Seq<char>,
    pub new: Seq<char>,
}

impl View for Conflict {
    type V = ConflictView;

    open spec fn view(&self) -> ConflictView {
        ConflictView {
            path: self.path@,
            method: self.method@,
            existing: self.existing@,
            new: self.new@,
        }
    }
}

/// The text of a conflict: method and path, and where the two handlers
/// were registered.
pub open spec fn conflict_text(c: ConflictView) -> Seq<char> {
    "Handler for method "@ + c.method + " already exists at path "@ + c.path + "\nExisting: "@
        + c.existing + "\nNew: "@ + c.new
}

impl Conflict {
    /// The text of the conflict.
    pub fn message(&self) -> (r: String)
        ensures
            r@ == conflict_text(self@),
    {
        String::from_str("Handler for method ").concat(self.method.as_str()).concat(
            " already exists at path ",
        ).concat(self.path.as_str()).concat("\nExisting: ").concat(self.existing.as_str()).concat(
            "\nNew: ",
        ).concat(self.new.as_str())
    }
}

/// Index of the first entry at or after `from` whose path is `path`.
pub open spec fn index_of_path(t: Seq<EntryView>, path: Seq<char>, from: int) -> Option<int>
    decreases t.len() - from,
{
    if from < 0 || from >= t.len() {
        None
    } else if t[from].path == path {
        Some(from)
    } else {
        index_of_path(t, path, from + 1)
    }
}

/// Index of the first chain at or after `from` whose method is `method`.
pub open spec fn index_of_method(ms: Seq<ChainView>, method: Seq<char>, from: int) -> Option<int>
    decreases ms.len() - from,
{
    if from < 0 || from >= ms.len() {
        None
    } else if ms[from].method == method {
        Some(from)
    } else {
        index_of_method(ms, method, from + 1)
    }
}

/// What `index_of_path` finds is the first entry with that path.
pub proof fn lemma_index_of_path(t: Seq<EntryView>, path: Seq<char>, from: int)
    requires
        0 <= from,
    ensures
        match index_of_path(t, path, from) {
            Some(i) => from <= i < t.len() && t[i].path == path && forall|j: int|
                from <= j < i ==> t[j].path != path,
            None => forall|j: int| from <= j < t.len() ==> t[j].path != path,
        },
    decreases t.len() - from,
{
    if from < t.len() && t[from].path != path {
        lemma_index_of_path(t, path, from + 1);
    }
}

/// What `index_of_method` finds is the first chain with that method.
pub proof fn lemma_index_of_method(ms: Seq<ChainView>, method: Seq<char>, from: int)
    requires
        0 <= from,
    ensures
        match index_of_method(ms, method, from) {
            Some(i) => from <= i < ms.len() && ms[i].method == method && forall|j: int|
                from <= j < i ==> ms[j].method != method,
            None => forall|j: int| from <= j < ms.len() ==> ms[j].method != method,
        },
    decreases ms.len() - from,
{
    if from < ms.len() && ms[from].method != method {
        lemma_index_of_method(ms, method, from + 1);
    }
}

/// Location of the last handler of a chain; empty for an empty chain.
pub open spec fn terminal_location(chain: Seq<HandlerView>) -> Seq<char> {
    if chain.len() == 0 {
        Seq::empty()
    } else {
        chain[chain.len() - 1].location
    }
}

/// The table after `route` is added: a new entry for a new path, a new
/// chain in the entry of a known path, or the conflict with the chain that
/// the entry already holds for the route's method.
pub open spec fn insert_spec(t: Seq<EntryView>, route: RouteView) -> Result<
    Seq<EntryView>,
    ConflictView,
> {
    let chain = ChainView { method: route.method, chain: route.chain, head_alias: false };
    match index_of_path(t, route.path, 0) {
        None => Ok(t.push(EntryView { path: route.path, methods: seq![chain] })),
        Some(i) => match index_of_method(t[i].methods, route.method, 0) {
            None => Ok(
                t.update(i, EntryView { path: route.path, methods: t[i].methods.push(chain) }),
            ),
            Some(k) => Err(
                ConflictView {
                    path: route.path,
                    method: route.method,
                    existing: terminal_location(t[i].methods[k].chain),
                    new: terminal_location(route.chain),
                },
            ),
        },
    }
}

/// The table after the routes from position `i` on are added to `t` one
/// by one, or the first conflict met.
pub open spec fn group_spec(t: Seq<EntryView>, routes: Seq<RouteView>, i: int) -> Result<
    Seq<EntryView>,
    ConflictView,
>
    decreases routes.len() - i,
{
    if i < 0 || i >= routes.len() {
        Ok(t)
    } else {
        match insert_spec(t, routes[i]) {
            Ok(t2) => group_spec(t2, routes, i + 1),
            Err(c) => Err(c),
        }
    }
}

/// An entry with the HEAD alias set on exactly its GET chain, if it has one
/// and has no HEAD chain.
pub open spec fn mark_entry_spec(e: EntryView) -> EntryView {
    EntryView {
        path: e.path,
        methods: e.methods.map_values(
            |c: ChainView|
                ChainView {
                    method: c.method,
                    chain: c.chain,
                    head_alias: c.method == "GET"@ && index_of_method(e.methods, "HEAD"@, 0)
                        is None,
                },
        ),
    }
}

/// A table with the HEAD alias set in every entry.
pub open spec fn mark_spec(t: Seq<EntryView>) -> Seq<EntryView> {
    t.map_values(|e: EntryView| mark_entry_spec(e))
}

/// A chain for `method` is a run of middleware that ends in one handler of
/// `method`.
pub open spec fn chain_wf(method: Seq<char>, chain: Seq<HandlerView>) -> bool {
    &&& chain.len() > 0
    &&& chain[chain.len() - 1].kind == KindView::Method(method)
    &&& forall|i: int| 0 <= i < chain.len() - 1 ==> !((#[trigger] chain[i]).kind is Method)
}

/// An entry holds well-formed chains, at most one for each method.
pub open spec fn entry_wf(e: EntryView) -> bool {
    &&& forall|k: int|
        0 <= k < e.methods.len() ==> chain_wf(
            (#[trigger] e.methods[k]).method,
            e.methods[k].chain,
        )
    &&& forall|a: int, b: int|
        0 <= a < b < e.methods.len() ==> (#[trigger] e.methods[a]).method != (
        #[trigger] e.methods[b]).method
}

/// A table holds well-formed entries, at most one for each path.
pub open spec fn table_wf(t: Seq<EntryView>) -> bool {
    &&& forall|i: int| 0 <= i < t.len() ==> entry_wf(#[trigger] t[i])
    &&& forall|i: int, j: int|
        0 <= i < j < t.len() ==> (#[trigger] t[i]).path != (#[trigger] t[j]).path
}

/// Every route of a list has a well-formed chain.
pub open spec fn routes_wf(routes: Seq<RouteView>) -> bool {
    forall|r: int|
        0 <= r < routes.len() ==> chain_wf((#[trigger] routes[r]).method, routes[r].chain)
}

/// Adding a route with a well-formed chain keeps a table well-formed.
pub proof fn lemma_insert_wf(t: Seq<EntryView>, route: RouteView)
    requires
        table_wf(t),
        chain_wf(route.method, route.chain),
        insert_spec(t, route) is Ok,
    ensures
        table_wf(insert_spec(t, route)->Ok_0),
{
    let t2 = insert_spec(t, route)->Ok_0;
    let chain = ChainView { method: route.method, chain: route.chain, head_alias: false };
    lemma_index_of_path(t, route.path, 0);
    match index_of_path(t, route.path, 0) {
        None => {
            let e = EntryView { path: route.path, methods: seq![chain] };
            assert(t2 == t.push(e));
            assert(entry_wf(e));
            assert forall|i: int| 0 <= i < t2.len() implies entry_wf(#[trigger] t2[i]) by {
                if i < t.len() {
                    assert(t2[i] == t[i]);
                }
            }
            assert forall|i: int, j: int| 0 <= i < j < t2.len() implies (#[trigger] t2[i]).path
                != (#[trigger] t2[j]).path by {
                assert(t2[i] == t[i]);
                if j < t.len() {
                    assert(t2[j] == t[j]);
                }
            }
        },
        Some(i0) => {
            let ms = t[i0].methods;
            lemma_index_of_method(ms, route.method, 0);
            let e = EntryView { path: route.path, methods: ms.push(chain) };
            assert(t2 == t.update(i0, e));
            assert(entry_wf(t[i0]));
            assert forall|k: int| 0 <= k < e.methods.len() implies chain_wf(
                (#[trigger] e.methods[k]).method,
                e.methods[k].chain,
            ) by {
                if k < ms.len() {
                    assert(e.methods[k] == ms[k]);
                }
            }
            assert forall|a: int, b: int| 0 <= a < b < e.methods.len() implies (
            #[trigger] e.methods[a]).method != (#[trigger] e.methods[b]).method by {
                assert(e.methods[a] == ms[a]);
                if b < ms.len() {
                    assert(e.methods[b] == ms[b]);
                }
            }
            assert(entry_wf(e));
            assert forall|i: int| 0 <= i < t2.len() implies entry_wf(#[trigger] t2[i]) by {
                if i != i0 {
                    assert(t2[i] == t[i]);
                }
            }
            assert forall|i: int, j: int| 0 <= i < j < t2.len() implies (#[trigger] t2[i]).path
                != (#[trigger] t2[j]).path by {
                assert(t2[i].path == t[i].path);
                assert(t2[j].path == t[j].path);
            }
        },
    }
}

/// Grouping routes with well-formed chains gives a well-formed table.
pub proof fn lemma_group_wf(t: Seq<EntryView>, routes: Seq<RouteView>, i: int)
    requires
        0 <= i,
        table_wf(t),
        routes_wf(routes),
        group_spec(t, routes, i) is Ok,
    ensures
        table_wf(group_spec(t, routes, i)->Ok_0),
    decreases routes.len() - i,
{
    if i < routes.len() {
        lemma_insert_wf(t, routes[i]);
        lemma_group_wf(insert_spec(t, routes[i])->Ok_0, routes, i + 1);
    }
}

/// Setting the HEAD aliases keeps a table well-formed.
pub proof fn lemma_mark_wf(t: Seq<EntryView>)
    requires
        table_wf(t),
    ensures
        table_wf(mark_spec(t)),
{
    let m = mark_spec(t);
    assert forall|i: int| 0 <= i < m.len() implies entry_wf(#[trigger] m[i]) by {
        assert(entry_wf(t[i]));
        let e = t[i];
        let me = mark_entry_spec(e);
        assert forall|k: int| 0 <= k < me.methods.len() implies chain_wf(
            (#[trigger] me.methods[k]).method,
            me.methods[k].chain,
        ) by {
            assert(me.methods[k].method == e.methods[k].method);
        }
        assert forall|a: int, b: int| 0 <= a < b < me.methods.len() implies (
        #[trigger] me.methods[a]).method != (#[trigger] me.methods[b]).method by {
            assert(me.methods[a].method == e.methods[a].method);
            assert(me.methods[b].method == e.methods[b].method);
        }
    }
    assert forall|i: int, j: int| 0 <= i < j < m.len() implies (#[trigger] m[i]).path != (
    #[trigger] m[j]).path by {
        assert(m[i].path == t[i].path);
        assert(m[j].path == t[j].path);
    }
}

/// Setting the HEAD aliases changes no method: every search finds what it
/// found before.
pub proof fn lemma_mark_keeps_methods(e: EntryView, method: Seq<char>, from: int)
    requires
        0 <= from,
    ensures
        index_of_method(mark_entry_spec(e).methods, method, from) == index_of_method(
            e.methods,
            method,
            from,
        ),
    decreases e.methods.len() - from,
{
    if from < e.methods.len() && e.methods[from].method != method {
        lemma_mark_keeps_methods(e, method, from + 1);
    }
}

/// The chain that a table holds for a path and a method.
pub open spec fn chain_of(t: Seq<EntryView>, path: Seq<char>, method: Seq<char>) -> Option<
    Seq<HandlerView>,
> {
    match index_of_path(t, path, 0) {
        Some(i) => match index_of_method(t[i].methods, method, 0) {
            Some(k) => Some(t[i].methods[k].chain),
            None => None,
        },
        None => None,
    }
}

/// Whether two routes of a list answer the same method on the same path.
pub open spec fn has_duplicate(routes: Seq<RouteView>, from: int) -> bool {
    exists|a: int, b: int|
        from <= a < b < routes.len() && (#[trigger] routes[a]).path == (#[trigger] routes[b]).path
            && routes[a].method == routes[b].method
}

/// A search in a table with one more entry finds what it found before, or
/// else the new entry.
pub proof fn lemma_index_of_path_push(t: Seq<EntryView>, e: EntryView, path: Seq<char>, from: int)
    requires
        0 <= from,
    ensures
        index_of_path(t.push(e), path, from) == match index_of_path(t, path, from) {
            Some(i) => Some(i),
            None => if e.path == path && from <= t.len() {
                Some(t.len() as int)
            } else {
                None
            },
        },
    decreases t.len() - from,
{
    if from < t.len() {
        assert(t.push(e)[from] == t[from]);
        if t[from].path != path {
            lemma_index_of_path_push(t, e, path, from + 1);
        }
    } else if from == t.len() {
        assert(t.push(e)[from] == e);
        assert(index_of_path(t.push(e), path, from + 1) is None);
    }
}

/// A search in an entry with one more chain finds what it found before,
/// or else the new chain.
pub proof fn lemma_index_of_method_push(
    ms: Seq<ChainView>,
    c: ChainView,
    method: Seq<char>,
    from: int,
)
    requires
        0 <= from,
    ensures
        index_of_method(ms.push(c), method, from) == match index_of_method(ms, method, from) {
            Some(i) => Some(i),
            None => if c.method == method && from <= ms.len() {
                Some(ms.len() as int)
            } else {
                None
            },
        },
    decreases ms.len() - from,
{
    if from < ms.len() {
        assert(ms.push(c)[from] == ms[from]);
        if ms[from].method != method {
            lemma_index_of_method_push(ms, c, method, from + 1);
        }
    } else if from == ms.len() {
        assert(ms.push(c)[from] == c);
        assert(index_of_method(ms.push(c), method, from + 1) is None);
    }
}

/// A search for a path finds the same entry in two tables with the same
/// paths.
pub proof fn lemma_index_of_path_same(
    a: Seq<EntryView>,
    b: Seq<EntryView>,
    path: Seq<char>,
    from: int,
)
    requires
        0 <= from,
        a.len() == b.len(),
        forall|i: int| 0 <= i < a.len() ==> (#[trigger] a[i]).path == b[i].path,
    ensures
        index_of_path(a, path, from) == index_of_path(b, path, from),
    decreases a.len() - from,
{
    if from < a.len() {
        assert(a[from].path == b[from].path);
        if a[from].path != path {
            lemma_index_of_path_same(a, b, path, from + 1);
        }
    }
}

/// After a route is added, the table holds its chain for its path and
/// method, and for every other path and method what it held before.
pub proof fn lemma_insert_lookup(
    t: Seq<EntryView>,
    route: RouteView,
    path: Seq<char>,
    method: Seq<char>,
)
    requires
        insert_spec(t, route) is Ok,
    ensures
        chain_of(t, route.path, route.method) is None,
        chain_of(insert_spec(t, route)->Ok_0, path, method) == if path == route.path && method
            == route.method {
            Some(route.chain)
        } else {
            chain_of(t, path, method)
        },
{
    let t2 = insert_spec(t, route)->Ok_0;
    let chain = ChainView { method: route.method, chain: route.chain, head_alias: false };
    lemma_index_of_path(t, route.path, 0);
    lemma_index_of_path(t, path, 0);
    match index_of_path(t, route.path, 0) {
        None => {
            let e = EntryView { path: route.path, methods: seq![chain] };
            lemma_index_of_path_push(t, e, path, 0);
            if path == route.path {
                assert(t2[t.len() as int] == e);
                assert(index_of_method(e.methods, method, 1) is None);
            } else {
                if index_of_path(t, path, 0) is Some {
                    assert(t2[index_of_path(t, path, 0)->0] == t[index_of_path(t, path, 0)->0]);
                }
            }
        },
        Some(i0) => {
            let ms = t[i0].methods;
            let e = EntryView { path: route.path, methods: ms.push(chain) };
            lemma_index_of_method(ms, route.method, 0);
            assert forall|i: int| 0 <= i < t2.len() implies (#[trigger] t2[i]).path
                == t[i].path by {}
            lemma_index_of_path_same(t2, t, path, 0);
            if path == route.path {
                assert(t2[i0] == e);
                lemma_index_of_method_push(ms, chain, method, 0);
                lemma_index_of_method(ms, method, 0);
                if index_of_method(ms, method, 0) is Some {
                    assert(e.methods[index_of_method(ms, method, 0)->0] == ms[index_of_method(
                        ms,
                        method,
                        0,
                    )->0]);
                }
            } else {
                if index_of_path(t, path, 0) is Some {
                    assert(t2[index_of_path(t, path, 0)->0] == t[index_of_path(t, path, 0)->0]);
                }
            }
        },
    }
}

/// A route is refused exactly where the table holds a chain for its path
/// and method.
pub proof fn lemma_insert_refused(t: Seq<EntryView>, route: RouteView)
    ensures
        insert_spec(t, route) is Err <==> chain_of(t, route.path, route.method) is Some,
{
}

/// What a table holds stays when further routes are added.
pub proof fn lemma_group_keeps(
    t: Seq<EntryView>,
    routes: Seq<RouteView>,
    i: int,
    path: Seq<char>,
    method: Seq<char>,
)
    requires
        0 <= i,
        group_spec(t, routes, i) is Ok,
        chain_of(t, path, method) is Some,
    ensures
        chain_of(group_spec(t, routes, i)->Ok_0, path, method) == chain_of(t, path, method),
        forall|r: int|
            i <= r < routes.len() ==> !((#[trigger] routes[r]).path == path && routes[r].method
                == method),
    decreases routes.len() - i,
{
    if i < routes.len() {
        lemma_insert_lookup(t, routes[i], path, method);
        lemma_group_keeps(insert_spec(t, routes[i])->Ok_0, routes, i + 1, path, method);
    }
}

/// The table of a list of routes answers each of them with its chain.
pub proof fn lemma_group_lookup(t: Seq<EntryView>, routes: Seq<RouteView>, i: int, r: int)
    requires
        0 <= i <= r < routes.len(),
        group_spec(t, routes, i) is Ok,
    ensures
        chain_of(group_spec(t, routes, i)->Ok_0, routes[r].path, routes[r].method) == Some(
            routes[r].chain,
        ),
    decreases routes.len() - i,
{
    let t1 = insert_spec(t, routes[i])->Ok_0;
    if r == i {
        lemma_insert_lookup(t, routes[i], routes[r].path, routes[r].method);
        lemma_group_keeps(t1, routes, i + 1, routes[r].path, routes[r].method);
    } else {
        lemma_group_lookup(t1, routes, i + 1, r);
    }
}

/// The table of a list of routes holds no chain but those of the routes
/// and those that it held before.
pub proof fn lemma_group_sound(
    t: Seq<EntryView>,
    routes: Seq<RouteView>,
    i: int,
    path: Seq<char>,
    method: Seq<char>,
)
    requires
        0 <= i,
        group_spec(t, routes, i) is Ok,
        chain_of(group_spec(t, routes, i)->Ok_0, path, method) is Some,
    ensures
        chain_of(t, path, method) == chain_of(group_spec(t, routes, i)->Ok_0, path, method) || (
        exists|r: int|
            i <= r < routes.len() && #[trigger] routes[r] == (RouteView {
                path,
                method,
                chain: chain_of(group_spec(t, routes, i)->Ok_0, path, method)->0,
            })),
    decreases routes.len() - i,
{
    if i < routes.len() {
        let t1 = insert_spec(t, routes[i])->Ok_0;
        let tf = group_spec(t, routes, i)->Ok_0;
        lemma_group_sound(t1, routes, i + 1, path, method);
        lemma_insert_lookup(t, routes[i], path, method);
        if chain_of(t1, path, method) == chain_of(tf, path, method) {
            if path == routes[i].path && method == routes[i].method {
                assert(routes[i] == RouteView {
                    path,
                    method,
                    chain: chain_of(tf, path, method)->0,
                });
            }
        } else {
            let r = choose|r: int|
                i + 1 <= r < routes.len() && #[trigger] routes[r] == (RouteView {
                    path,
                    method,
                    chain: chain_of(tf, path, method)->0,
                });
            assert(i <= r < routes.len());
        }
    }
}

/// Routes are grouped into a table unless two of them answer the same
/// method on the same path.
pub proof fn lemma_group_refused(t: Seq<EntryView>, routes: Seq<RouteView>, i: int)
    requires
        0 <= i,
        forall|r: int|
            i <= r < routes.len() ==> chain_of(t, (#[trigger] routes[r]).path, routes[r].method)
                is None,
    ensures
        group_spec(t, routes, i) is Err <==> has_duplicate(routes, i),
    decreases routes.len() - i,
{
    if i < routes.len() {
        assert(chain_of(t, routes[i].path, routes[i].method) is None);
        let t1 = insert_spec(t, routes[i])->Ok_0;
        if exists|b: int|
            i < b < routes.len() && (#[trigger] routes[b]).path == routes[i].path
                && routes[b].method == routes[i].method {
            let b = choose|b: int|
                i < b < routes.len() && (#[trigger] routes[b]).path == routes[i].path
                    && routes[b].method == routes[i].method;
            assert(i <= i < b < routes.len() && routes[i].path == routes[b].path);
            assert(has_duplicate(routes, i));
            if group_spec(t1, routes, i + 1) is Ok {
                lemma_insert_lookup(t, routes[i], routes[i].path, routes[i].method);
                lemma_group_keeps(t1, routes, i + 1, routes[i].path, routes[i].method);
                assert(!(routes[b].path == routes[i].path && routes[b].method
                    == routes[i].method));
            }
        } else {
            assert forall|r: int| i + 1 <= r < routes.len() implies chain_of(
                t1,
                (#[trigger] routes[r]).path,
                routes[r].method,
            ) is None by {
                lemma_insert_lookup(t, routes[i], routes[r].path, routes[r].method);
            }
            lemma_group_refused(t1, routes, i + 1);
            if has_duplicate(routes, i) {
                let (a, b) = choose|a: int, b: int|
                    i <= a < b < routes.len() && (#[trigger] routes[a]).path == (
                    #[trigger] routes[b]).path && routes[a].method == routes[b].method;
                assert(a != i);
                assert(i + 1 <= a < b < routes.len());
                assert(has_duplicate(routes, i + 1));
            }
            if has_duplicate(routes, i + 1) {
                let (a, b) = choose|a: int, b: int|
                    i + 1 <= a < b < routes.len() && (#[trigger] routes[a]).path == (
                    #[trigger] routes[b]).path && routes[a].method == routes[b].method;
                assert(i <= a < b < routes.len());
            }
        }
    } else {
        if has_duplicate(routes, i) {
            let (a, b) = choose|a: int, b: int|
                i <= a < b < routes.len() && (#[trigger] routes[a]).path == (
                #[trigger] routes[b]).path && routes[a].method == routes[b].method;
        }
    }
}

/// Setting the HEAD aliases changes no chain.
pub proof fn lemma_mark_lookup(t: Seq<EntryView>, path: Seq<char>, method: Seq<char>)
    ensures
        chain_of(mark_spec(t), path, method) == chain_of(t, path, method),
{
    let m = mark_spec(t);
    assert forall|i: int| 0 <= i < m.len() implies (#[trigger] m[i]).path == t[i].path by {}
    lemma_index_of_path_same(m, t, path, 0);
    lemma_index_of_path(t, path, 0);
    if index_of_path(t, path, 0) is Some {
        let i = index_of_path(t, path, 0)->0;
        assert(m[i] == mark_entry_spec(t[i]));
        lemma_mark_keeps_methods(t[i], method, 0);
        lemma_index_of_method(t[i].methods, method, 0);
    }
}

/// Location of the last handler of a chain.
pub fn last_location(chain: &Vec<Handler>) -> (r: String)
    ensures
        r@ == terminal_location(views(chain@)),
{
    if chain.len() == 0 {
        String::new()
    } else {
        chain[chain.len() - 1].location.clone()
    }
}

impl RouteEntry {
    /// Position of the chain registered for `method`.
    pub fn find_method(&self, method: &Method) -> (r: Option<usize>)
        ensures
            match r {
                Some(k) => index_of_method(self@.methods, method@, 0) == Some(k as int) && k
                    < self.methods.len(),
                None => index_of_method(self@.methods, method@, 0) is None,
            },
    {
        let mut i: usize = 0;
        while i < self.methods.len()
            invariant
                i <= self.methods.len(),
                index_of_method(self@.methods, method@, 0) == index_of_method(
                    self@.methods,
                    method@,
                    i as int,
                ),
            decreases self.methods.len() - i,
        {
            if self.methods[i].method.same(method) {
                return Some(i);
            }
            i = i + 1;
        }
        None
    }
}

impl RouteEntry {
    /// Sets the HEAD alias on the GET chain if the entry has no HEAD chain,
    /// and clears it everywhere else.
    pub fn mark_head_alias(&mut self)
        ensures
            final(self)@ == mark_entry_spec(old(self)@),
    {
        let ghost e0 = self@;
        let head = Method::head();
        let no_head = self.find_method(&head).is_none();
        let mut k: usize = 0;
        while k < self.methods.len()
            invariant
                k <= self.methods.len(),
                self@.path == e0.path,
                self@.methods.len() == e0.methods.len(),
                no_head == (index_of_method(e0.methods, "HEAD"@, 0) is None),
                forall|j: int| 0 <= j < k ==> self@.methods[j] == mark_entry_spec(e0).methods[j],
                forall|j: int| k <= j < self.methods.len() ==> self@.methods[j] == e0.methods[j],
            decreases self.methods.len() - k,
        {
            let alias = no_head && self.methods[k].method.is_get();
            self.methods[k].head_alias = alias;
            k = k + 1;
        }
        assert(self@.methods =~= mark_entry_spec(e0).methods);
    }
}

impl RouteTable {
    /// Sets the HEAD alias in every entry.
    pub fn mark_head_aliases(&mut self)
        ensures
            final(self)@ == mark_spec(old(self)@),
    {
        let ghost t0 = self@;
        let mut i: usize = 0;
        while i < self.entries.len()
            invariant
                i <= self.entries.len(),
                self.entries.len() == t0.len(),
                forall|j: int|
                    0 <= j < i ==> (#[trigger] self.entries@[j])@ == mark_entry_spec(t0[j]),
                forall|j: int| i <= j < t0.len() ==> (#[trigger] self.entries@[j])@ == t0[j],
            decreases self.entries.len() - i,
        {
            let ghost before = self.entries@;
            self.entries[i].mark_head_alias();
            assert(forall|j: int|
                0 <= j < before.len() && j != i ==> self.entries@[j] == before[j]);
            i = i + 1;
        }
    }

    /// The empty table.
    pub fn new() -> (r: RouteTable)
        ensures
            r@ == Seq::<EntryView>::empty(),
    {
        let r = RouteTable { entries: Vec::new() };
        r
    }

    /// Position of the entry of `path`.
    pub fn find(&self, path: &str) -> (r: Option<usize>)
        ensures
            match r {
                Some(i) => index_of_path(self@, path@, 0) == Some(i as int) && i
                    < self.entries.len(),
                None => index_of_path(self@, path@, 0) is None,
            },
    {
        let mut i: usize = 0;
        let wanted = String::from_str(path);
        while i < self.entries.len()
            invariant
                i <= self.entries.len(),
                wanted@ == path@,
                index_of_path(self@, path@, 0) == index_of_path(self@, path@, i as int),
            decreases self.entries.len() - i,
        {
            if self.entries[i].path == wanted {
                return Some(i);
            }
            i = i + 1;
        }
        None
    }

    /// The table of a list of routes, or the first conflict among them.
    pub fn from_routes(routes: Vec<Route>) -> (r: Result<RouteTable, Conflict>)
        ensures
            match group_spec(Seq::empty(), route_views(routes@), 0) {
                Ok(t) => r matches Ok(table) && table@ == t,
                Err(c) => r matches Err(e) && e@ == c,
            },
    {
        let mut table = RouteTable::new();
        let ghost all = route_views(routes@);
        for route in it: routes.into_iter()
            invariant
                it.seq() == routes@,
                all == route_views(routes@),
                group_spec(Seq::empty(), all, 0) == group_spec(table@, all, it.index() as int),
        {
            match table.insert(route) {
                Ok(()) => {},
                Err(c) => {
                    return Err(c);
                },
            }
        }
        Ok(table)
    }

    /// Adds one route, unless its path already has a chain for its method.
    pub fn insert(&mut self, route: Route) -> (r: Result<(), Conflict>)
        ensures
            match insert_spec(old(self)@, route@) {
                Ok(t) => r is Ok && final(self)@ == t,
                Err(c) => r matches Err(e) && e@ == c && final(self)@ == old(self)@,
            },
    {
        let ghost t0 = self@;
        match self.find(route.path.as_str()) {
            None => {
                let chain = MethodChain {
                    method: route.method,
                    chain: route.chain,
                    head_alias: false,
                };
                let mut methods: Vec<MethodChain> = Vec::new();
                methods.push(chain);
                let entry = RouteEntry { path: route.path, methods };
                assert(entry@.methods =~= seq![chain@]);
                self.entries.push(entry);
                Ok(())
            },
            Some(i) => {
                match self.entries[i].find_method(&route.method) {
                    Some(k) => {
                        let c = Conflict {
                            path: route.path,
                            method: route.method,
                            existing: last_location(&self.entries[i].methods[k].chain),
                            new: last_location(&route.chain),
                        };
                        Err(c)
                    },
                    None => {
                        let chain = MethodChain {
                            method: route.method,
                            chain: route.chain,
                            head_alias: false,
                        };
                        let ghost m0 = self.entries[i as int]@.methods;
                        proof {
                            lemma_index_of_path(t0, route.path@, 0);
                        }
                        self.entries[i].methods.push(chain);
                        assert(self.entries[i as int]@.methods =~= m0.push(chain@));
                        assert(self@ =~= t0.update(
                            i as int,
                            EntryView { path: route.path@, methods: m0.push(chain@) },
                        ));
                        Ok(())
                    },
                }
            },
        }
    }
}

} // verus!
