//! The router tree and its flattening into handler chains.

use vstd::prelude::*;
use vstd::string::*;
use crate::handler::{
    clone_handlers, extend_handlers, views, Callable, Handler, HandlerType, HandlerView, KindView,
};
use crate::method::{all, all_token, Method};
use crate::path::{
    is_group_path, is_node_path, join_paths, join_spec, lemma_join_is_group_path,
};
use crate::table::{
    chain_of, chain_wf, group_spec, has_duplicate, lemma_group_lookup, lemma_group_refused,
    lemma_group_sound, lemma_group_wf, lemma_mark_lookup, lemma_mark_wf, mark_spec, route_views,
    routes_wf, table_wf, Conflict, ConflictView, EntryView, Route, RouteTable, RouteView,
};

verus! {

/// One thing registered on a node: a handler or a subtree.
#[derive(Debug)]
pub enum RouterItem {
    Handler(Handler),
    Child(Router),
}

/// A node of the routing tree: a path segment and what was registered on
/// it, in the order of registration.
#[derive(Debug)]
pub struct Router {
    pub path: String,
    pub items: Vec<RouterItem>,
}

/// The routes of the subtree `router` mounted under `base`, where
/// `inherited` is the global middleware in force at the mount point.
pub open spec fn walk_spec(base: Seq<char>, router: Router, inherited: Seq<HandlerView>) -> Seq<
    RouteView,
>
    decreases router, 0nat,
{
    items_spec(join_spec(base, router.path@), router.items@, 0, inherited, Seq::empty())
}

/// The routes that the items from position `i` on contribute to a node at
/// `path`, where `globals` and `locals` are the global and local
/// middleware in force before item `i`.
pub open spec fn items_spec(
    path: Seq<char>,
    items: Seq<RouterItem>,
    i: int,
    globals: Seq<HandlerView>,
    locals: Seq<HandlerView>,
) -> Seq<RouteView>
    decreases items, items.len() - i,
{
    if i < 0 || i >= items.len() {
        Seq::empty()
    } else {
        match items[i] {
            RouterItem::Handler(h) => match h@.kind {
                KindView::Middleware => items_spec(path, items, i + 1, globals.push(h@), locals),
                KindView::LocalMiddleware => items_spec(
                    path,
                    items,
                    i + 1,
                    globals,
                    locals.push(h@),
                ),
                KindView::Method(m) => seq![
                    RouteView { path, method: m, chain: (globals + locals).push(h@) },
                ] + items_spec(path, items, i + 1, globals, locals),
            },
            RouterItem::Child(c) => walk_spec(path, c, globals) + items_spec(
                path,
                items,
                i + 1,
                globals,
                locals,
            ),
        }
    }
}

/// Every node of the tree has a node path: the path of a route group, or
/// the empty path of a root.
pub open spec fn tree_wf(router: Router) -> bool
    decreases router, 0nat,
{
    is_node_path(router.path@) && children_wf(router.items@, 0)
}

/// Every subtree among the items from position `i` on is well-formed.
pub open spec fn children_wf(items: Seq<RouterItem>, i: int) -> bool
    decreases items, items.len() - i,
{
    if i < 0 || i >= items.len() {
        true
    } else {
        &&& match items[i] {
            RouterItem::Handler(_) => true,
            RouterItem::Child(c) => tree_wf(c),
        }
        &&& children_wf(items, i + 1)
    }
}

/// Items stay well-formed when a handler or a well-formed subtree is
/// added at the end.
pub proof fn lemma_children_wf_push(items: Seq<RouterItem>, item: RouterItem, i: int)
    requires
        0 <= i,
        children_wf(items, i),
        item matches RouterItem::Child(c) ==> tree_wf(c),
    ensures
        children_wf(items.push(item), i),
    decreases items.len() - i,
{
    let more = items.push(item);
    if i < items.len() {
        assert(more[i] == items[i]);
        lemma_children_wf_push(items, item, i + 1);
    } else if i == items.len() {
        assert(more[i] == item);
        assert(children_wf(more, i + 1));
    }
}

/// Every route of a well-formed tree mounted under a node path has the
/// path of a route group: it starts with a slash and does not end with
/// one, unless it is the root.
pub proof fn lemma_walk_paths(base: Seq<char>, router: Router, inherited: Seq<HandlerView>)
    requires
        is_node_path(base),
        tree_wf(router),
    ensures
        forall|r: int|
            0 <= r < walk_spec(base, router, inherited).len() ==> is_group_path(
                (#[trigger] walk_spec(base, router, inherited)[r]).path,
            ),
    decreases router, 0nat,
{
    lemma_join_is_group_path(base, router.path@);
    lemma_items_paths(
        join_spec(base, router.path@),
        router.items@,
        0,
        inherited,
        Seq::empty(),
    );
    assert(walk_spec(base, router, inherited) == items_spec(
        join_spec(base, router.path@),
        router.items@,
        0,
        inherited,
        Seq::empty(),
    ));
}

/// Every route that the items of a well-formed node at the path of a
/// route group contribute has the path of a route group.
pub proof fn lemma_items_paths(
    path: Seq<char>,
    items: Seq<RouterItem>,
    i: int,
    globals: Seq<HandlerView>,
    locals: Seq<HandlerView>,
)
    requires
        0 <= i,
        is_group_path(path),
        children_wf(items, i),
    ensures
        forall|r: int|
            0 <= r < items_spec(path, items, i, globals, locals).len() ==> is_group_path(
                (#[trigger] items_spec(path, items, i, globals, locals)[r]).path,
            ),
    decreases items, items.len() - i,
{
    let whole = items_spec(path, items, i, globals, locals);
    if i < items.len() {
        match items[i] {
            RouterItem::Handler(h) => match h@.kind {
                KindView::Middleware => {
                    lemma_items_paths(path, items, i + 1, globals.push(h@), locals);
                    assert(whole == items_spec(path, items, i + 1, globals.push(h@), locals));
                },
                KindView::LocalMiddleware => {
                    lemma_items_paths(path, items, i + 1, globals, locals.push(h@));
                    assert(whole == items_spec(path, items, i + 1, globals, locals.push(h@)));
                },
                KindView::Method(_) => {
                    lemma_items_paths(path, items, i + 1, globals, locals);
                    let rest = items_spec(path, items, i + 1, globals, locals);
                    assert forall|r: int| 0 <= r < whole.len() implies is_group_path(
                        (#[trigger] whole[r]).path,
                    ) by {
                        if r > 0 {
                            assert(whole[r] == rest[r - 1]);
                        }
                    }
                },
            },
            RouterItem::Child(c) => {
                lemma_walk_paths(path, c, globals);
                lemma_items_paths(path, items, i + 1, globals, locals);
                let own = walk_spec(path, c, globals);
                let rest = items_spec(path, items, i + 1, globals, locals);
                assert forall|r: int| 0 <= r < whole.len() implies is_group_path(
                    (#[trigger] whole[r]).path,
                ) by {
                    if r < own.len() {
                        assert(whole[r] == own[r]);
                    } else {
                        assert(whole[r] == rest[r - own.len()]);
                    }
                }
            },
        }
    }
}

/// `item` is a handler whose model is `h`.
pub open spec fn is_handler_item(item: RouterItem, h: HandlerView) -> bool {
    item matches RouterItem::Handler(x) && x@ == h
}

/// `after` is `before` with one more item, a handler whose model is `h`.
pub open spec fn with_handler(before: Router, after: Router, h: HandlerView) -> bool {
    &&& after.path@ == before.path@
    &&& after.items@.len() == before.items@.len() + 1
    &&& after.items@.take(before.items@.len() as int) == before.items@
    &&& is_handler_item(after.items@.last(), h)
}

/// The handler that the callable at position `i` of a route registration
/// becomes: the last one handles `method`, the others are local middleware.
pub open spec fn route_handler(method: Seq<char>, handlers: Seq<Callable>, i: int) -> HandlerView {
    HandlerView {
        id: handlers[i].id,
        kind: if i + 1 == handlers.len() {
            KindView::Method(method)
        } else {
            KindView::LocalMiddleware
        },
        location: handlers[i].location@,
    }
}

/// `after` is `before` with one more item, the subtree `child`.
pub open spec fn with_child(before: Router, after: Router, child: Router) -> bool {
    &&& after.path@ == before.path@
    &&& after.items@ == before.items@.push(RouterItem::Child(child))
}

/// `group` is the node that a route registration makes: it sits at `path`
/// and holds the callables but the last as local middleware, in order, and
/// the last as the handler of `method`.
pub open spec fn is_route_group(
    group: Router,
    path: Seq<char>,
    method: Seq<char>,
    handlers: Seq<Callable>,
) -> bool {
    &&& group.path@ == path
    &&& group.items@.len() == handlers.len()
    &&& forall|i: int|
        0 <= i < handlers.len() ==> is_handler_item(
            #[trigger] group.items@[i],
            route_handler(method, handlers, i),
        )
}

/// `after` is `before` with one more item, the node of a route
/// registration.
pub open spec fn with_route(
    before: Router,
    after: Router,
    path: Seq<char>,
    method: Seq<char>,
    handlers: Seq<Callable>,
) -> bool {
    &&& after.path@ == before.path@
    &&& after.items@.len() == before.items@.len() + 1
    &&& after.items@.take(before.items@.len() as int) == before.items@
    &&& after.items@.last() matches RouterItem::Child(c) && is_route_group(
        c,
        path,
        method,
        handlers,
    )
}

/// The pattern of the routes below `prefix`: what is left of a path is
/// bound to the parameter `rest`.
pub open spec fn files_pattern(prefix: Seq<char>) -> Seq<char> {
    join_spec(prefix, "/{*rest}"@)
}

/// The table that flattening `router` gives, or the first conflict: the
/// routes of the whole tree are grouped by path and the HEAD aliases are
/// set.
pub open spec fn flatten_spec(router: Router) -> Result<Seq<EntryView>, ConflictView> {
    match group_spec(Seq::empty(), walk_spec(Seq::empty(), router, Seq::empty()), 0) {
        Ok(t) => Ok(mark_spec(t)),
        Err(c) => Err(c),
    }
}

/// The global middleware in force before item `j` of a node that has
/// inherited `inherited`.
pub open spec fn globals_before(items: Seq<RouterItem>, j: int, inherited: Seq<HandlerView>) -> Seq<
    HandlerView,
>
    decreases j,
{
    if j <= 0 || j > items.len() {
        inherited
    } else {
        let before = globals_before(items, j - 1, inherited);
        match items[j - 1] {
            RouterItem::Handler(h) => if h@.kind is Middleware {
                before.push(h@)
            } else {
                before
            },
            RouterItem::Child(_) => before,
        }
    }
}

/// The local middleware in force before item `j` of a node.
pub open spec fn locals_before(items: Seq<RouterItem>, j: int) -> Seq<HandlerView>
    decreases j,
{
    if j <= 0 || j > items.len() {
        Seq::empty()
    } else {
        let before = locals_before(items, j - 1);
        match items[j - 1] {
            RouterItem::Handler(h) => if h@.kind is LocalMiddleware {
                before.push(h@)
            } else {
                before
            },
            RouterItem::Child(_) => before,
        }
    }
}

/// Whether a handler with the model `m` is registered in the subtree
/// `router`.
pub open spec fn occurs_in(router: Router, m: HandlerView) -> bool
    decreases router, 0nat,
{
    occurs_from(router.items@, 0, m)
}

/// Whether a handler with the model `m` is registered in one of the items
/// from position `i` on, or below one of them.
pub open spec fn occurs_from(items: Seq<RouterItem>, i: int, m: HandlerView) -> bool
    decreases items, items.len() - i,
{
    if i < 0 || i >= items.len() {
        false
    } else {
        ||| match items[i] {
            RouterItem::Handler(h) => h@ == m,
            RouterItem::Child(c) => occurs_in(c, m),
        }
        ||| occurs_from(items, i + 1, m)
    }
}

/// The routes that the child at position `j` of `node` contributes when
/// `node` is mounted under `base` with `inherited` in force.
pub open spec fn child_routes(
    base: Seq<char>,
    node: Router,
    inherited: Seq<HandlerView>,
    j: int,
) -> Seq<RouteView> {
    match node.items@[j] {
        RouterItem::Child(c) => walk_spec(
            join_spec(base, node.path@),
            c,
            globals_before(node.items@, j, inherited),
        ),
        RouterItem::Handler(_) => Seq::empty(),
    }
}

/// `part` stands in `whole` as one block.
pub open spec fn is_block_of(part: Seq<RouteView>, whole: Seq<RouteView>) -> bool {
    exists|a: Seq<RouteView>, b: Seq<RouteView>| whole == a + part + b
}

/// Every handler of every chain of a subtree is inherited or registered in
/// the subtree.
pub proof fn lemma_walk_members(
    base: Seq<char>,
    router: Router,
    inherited: Seq<HandlerView>,
    r: int,
    x: int,
)
    requires
        0 <= r < walk_spec(base, router, inherited).len(),
        0 <= x < walk_spec(base, router, inherited)[r].chain.len(),
    ensures
        ({
            let m = walk_spec(base, router, inherited)[r].chain[x];
            inherited.contains(m) || occurs_in(router, m)
        }),
    decreases router, 0nat,
{
    lemma_items_members(
        join_spec(base, router.path@),
        router.items@,
        0,
        inherited,
        Seq::empty(),
        r,
        x,
    );
}

/// Every handler of every chain that the items from `i` on contribute is
/// among the middleware in force or registered in or below those items.
pub proof fn lemma_items_members(
    path: Seq<char>,
    items: Seq<RouterItem>,
    i: int,
    globals: Seq<HandlerView>,
    locals: Seq<HandlerView>,
    r: int,
    x: int,
)
    requires
        0 <= i,
        0 <= r < items_spec(path, items, i, globals, locals).len(),
        0 <= x < items_spec(path, items, i, globals, locals)[r].chain.len(),
    ensures
        ({
            let m = items_spec(path, items, i, globals, locals)[r].chain[x];
            globals.contains(m) || locals.contains(m) || occurs_from(items, i, m)
        }),
    decreases items, items.len() - i,
{
    let m = items_spec(path, items, i, globals, locals)[r].chain[x];
    if i < items.len() {
        match items[i] {
            RouterItem::Handler(h) => match h@.kind {
                KindView::Middleware => {
                    lemma_items_members(path, items, i + 1, globals.push(h@), locals, r, x);
                    if globals.push(h@).contains(m) && !globals.contains(m) {
                        let w = choose|w: int|
                            0 <= w < globals.push(h@).len() && globals.push(h@)[w] == m;
                        if w < globals.len() {
                            assert(globals[w] == m);
                        }
                    }
                },
                KindView::LocalMiddleware => {
                    lemma_items_members(path, items, i + 1, globals, locals.push(h@), r, x);
                    if locals.push(h@).contains(m) && !locals.contains(m) {
                        let w = choose|w: int|
                            0 <= w < locals.push(h@).len() && locals.push(h@)[w] == m;
                        if w < locals.len() {
                            assert(locals[w] == m);
                        }
                    }
                },
                KindView::Method(_) => {
                    if r == 0 {
                        if x < globals.len() {
                            assert(globals[x] == m);
                        } else if x < globals.len() + locals.len() {
                            assert(locals[x - globals.len()] == m);
                        }
                    } else {
                        lemma_items_members(path, items, i + 1, globals, locals, r - 1, x);
                    }
                },
            },
            RouterItem::Child(c) => {
                let own = walk_spec(path, c, globals);
                if r < own.len() {
                    lemma_walk_members(path, c, globals, r, x);
                } else {
                    lemma_items_members(path, items, i + 1, globals, locals, r - own.len(), x);
                }
            },
        }
    }
}

/// The middleware in force before an item is inherited or registered on
/// the node before that item.
pub proof fn lemma_globals_before_members(
    items: Seq<RouterItem>,
    j: int,
    inherited: Seq<HandlerView>,
    m: HandlerView,
)
    requires
        0 <= j <= items.len(),
        globals_before(items, j, inherited).contains(m),
    ensures
        inherited.contains(m) || exists|i: int|
            0 <= i < j && is_handler_item(#[trigger] items[i], m),
    decreases j,
{
    if j > 0 {
        let before = globals_before(items, j - 1, inherited);
        if before.contains(m) {
            lemma_globals_before_members(items, j - 1, inherited, m);
        } else {
            let w = choose|w: int|
                0 <= w < globals_before(items, j, inherited).len() && globals_before(
                    items,
                    j,
                    inherited,
                )[w] == m;
            if w < before.len() {
                assert(before[w] == m);
            }
            assert(is_handler_item(items[j - 1], m));
        }
    }
}

/// The routes of a child stand as one block among the routes that the
/// items of its node contribute from any earlier position on.
pub proof fn lemma_child_block(
    path: Seq<char>,
    items: Seq<RouterItem>,
    inherited: Seq<HandlerView>,
    i: int,
    j: int,
)
    requires
        0 <= i <= j < items.len(),
        items[j] is Child,
    ensures
        is_block_of(
            walk_spec(path, items[j]->Child_0, globals_before(items, j, inherited)),
            items_spec(
                path,
                items,
                i,
                globals_before(items, i, inherited),
                locals_before(items, i),
            ),
        ),
    decreases j - i,
{
    let g = globals_before(items, i, inherited);
    let l = locals_before(items, i);
    let part = walk_spec(path, items[j]->Child_0, globals_before(items, j, inherited));
    let whole = items_spec(path, items, i, g, l);
    let rest = items_spec(
        path,
        items,
        i + 1,
        globals_before(items, i + 1, inherited),
        locals_before(items, i + 1),
    );
    if i == j {
        assert(whole == Seq::<RouteView>::empty() + part + rest);
    } else {
        lemma_child_block(path, items, inherited, i + 1, j);
        let (a, b) = choose|a: Seq<RouteView>, b: Seq<RouteView>| rest == a + part + b;
        match items[i] {
            RouterItem::Handler(h) => match h@.kind {
                KindView::Method(method) => {
                    let first = seq![
                        RouteView { path, method, chain: (g + l).push(h@) },
                    ];
                    assert(whole =~= (first + a) + part + b);
                },
                _ => {
                    assert(whole == a + part + b);
                },
            },
            RouterItem::Child(c) => {
                assert(whole =~= (walk_spec(path, c, g) + a) + part + b);
            },
        }
    }
}

/// The route of the method handler at position `k` of a node: its chain
/// is the global middleware in force before it, then the local middleware
/// registered on the node before it, then the handler.
pub open spec fn handler_route(
    path: Seq<char>,
    items: Seq<RouterItem>,
    inherited: Seq<HandlerView>,
    k: int,
) -> RouteView {
    let h = items[k]->Handler_0@;
    RouteView {
        path,
        method: h.kind->Method_0,
        chain: (globals_before(items, k, inherited) + locals_before(items, k)).push(h),
    }
}

/// The route of a method handler is among the routes that the items of
/// its node contribute from any earlier position on.
pub proof fn lemma_handler_route(
    path: Seq<char>,
    items: Seq<RouterItem>,
    inherited: Seq<HandlerView>,
    i: int,
    k: int,
)
    requires
        0 <= i <= k < items.len(),
        items[k] is Handler,
        items[k]->Handler_0@.kind is Method,
    ensures
        items_spec(
            path,
            items,
            i,
            globals_before(items, i, inherited),
            locals_before(items, i),
        ).contains(handler_route(path, items, inherited, k)),
    decreases k - i,
{
    let g = globals_before(items, i, inherited);
    let l = locals_before(items, i);
    let whole = items_spec(path, items, i, g, l);
    let wanted = handler_route(path, items, inherited, k);
    if i == k {
        assert(whole[0] == wanted);
    } else {
        lemma_handler_route(path, items, inherited, i + 1, k);
        let rest = items_spec(
            path,
            items,
            i + 1,
            globals_before(items, i + 1, inherited),
            locals_before(items, i + 1),
        );
        let w = choose|w: int| 0 <= w < rest.len() && rest[w] == wanted;
        match items[i] {
            RouterItem::Handler(h) => match h@.kind {
                KindView::Method(method) => {
                    assert(whole[w + 1] == wanted);
                },
                _ => {
                    assert(whole[w] == wanted);
                },
            },
            RouterItem::Child(c) => {
                let own = walk_spec(path, c, g);
                assert(whole[own.len() + w] == wanted);
            },
        }
    }
}

/// The chain of a method handler registered on a node is what the node
/// inherited, then the global middleware registered on the node before the
/// handler, then the local middleware registered on the node before the
/// handler, then the handler, and it answers the method of the handler on
/// the joined path of the node.
pub proof fn lemma_chain_of_handler(
    base: Seq<char>,
    node: Router,
    inherited: Seq<HandlerView>,
    k: int,
)
    requires
        0 <= k < node.items@.len(),
        node.items@[k] is Handler,
        node.items@[k]->Handler_0@.kind is Method,
    ensures
        walk_spec(base, node, inherited).contains(
            handler_route(join_spec(base, node.path@), node.items@, inherited, k),
        ),
{
    lemma_handler_route(join_spec(base, node.path@), node.items@, inherited, 0, k);
}

/// Middleware registered on a node after a child was pushed does not
/// reach the child: a handler that is neither inherited by the node, nor
/// registered on it before the child, nor registered in the child, is in no
/// chain of the child's routes.  Those routes stand as one block among the
/// routes of the node.
pub proof fn lemma_later_middleware_not_inherited(
    base: Seq<char>,
    node: Router,
    inherited: Seq<HandlerView>,
    j: int,
    k: int,
    m: HandlerView,
)
    requires
        0 <= j < k < node.items@.len(),
        node.items@[j] is Child,
        is_handler_item(node.items@[k], m),
        !inherited.contains(m),
        forall|i: int| 0 <= i < j ==> !is_handler_item(#[trigger] node.items@[i], m),
        !occurs_in(node.items@[j]->Child_0, m),
    ensures
        is_block_of(
            child_routes(base, node, inherited, j),
            walk_spec(base, node, inherited),
        ),
        forall|r: int|
            0 <= r < child_routes(base, node, inherited, j).len() ==> !(
            #[trigger] child_routes(base, node, inherited, j)[r]).chain.contains(m),
{
    let path = join_spec(base, node.path@);
    let items = node.items@;
    let c = items[j]->Child_0;
    let g = globals_before(items, j, inherited);
    lemma_child_block(path, items, inherited, 0, j);
    let routes = child_routes(base, node, inherited, j);
    assert forall|r: int| 0 <= r < routes.len() implies !(#[trigger] routes[r]).chain.contains(
        m,
    ) by {
        if routes[r].chain.contains(m) {
            let x = choose|x: int| 0 <= x < routes[r].chain.len() && routes[r].chain[x] == m;
            lemma_walk_members(path, c, g, r, x);
            lemma_globals_before_members(items, j, inherited, m);
        }
    }
}

/// No handler of the list ends a chain.
pub open spec fn all_middleware(s: Seq<HandlerView>) -> bool {
    forall|i: int| 0 <= i < s.len() ==> !((#[trigger] s[i]).kind is Method)
}

/// Every chain of a subtree is a run of middleware that ends in the
/// handler of the route's method.
pub proof fn lemma_walk_wf(base: Seq<char>, router: Router, inherited: Seq<HandlerView>)
    requires
        all_middleware(inherited),
    ensures
        routes_wf(walk_spec(base, router, inherited)),
    decreases router, 0nat,
{
    lemma_items_wf(join_spec(base, router.path@), router.items@, 0, inherited, Seq::empty());
}

/// Every chain that the items from `i` on contribute is well-formed.
pub proof fn lemma_items_wf(
    path: Seq<char>,
    items: Seq<RouterItem>,
    i: int,
    globals: Seq<HandlerView>,
    locals: Seq<HandlerView>,
)
    requires
        0 <= i,
        all_middleware(globals),
        all_middleware(locals),
    ensures
        routes_wf(items_spec(path, items, i, globals, locals)),
    decreases items, items.len() - i,
{
    if i < items.len() {
        match items[i] {
            RouterItem::Handler(h) => match h@.kind {
                KindView::Middleware => {
                    lemma_items_wf(path, items, i + 1, globals.push(h@), locals);
                },
                KindView::LocalMiddleware => {
                    lemma_items_wf(path, items, i + 1, globals, locals.push(h@));
                },
                KindView::Method(m) => {
                    lemma_items_wf(path, items, i + 1, globals, locals);
                    let chain = (globals + locals).push(h@);
                    assert(chain_wf(m, chain));
                },
            },
            RouterItem::Child(c) => {
                lemma_walk_wf(path, c, globals);
                lemma_items_wf(path, items, i + 1, globals, locals);
            },
        }
    }
}

/// The table of a tree is well-formed: no path twice, no method twice on
/// a path, and every chain a run of middleware that ends in the handler of
/// its method.
pub proof fn lemma_flatten_wf(router: Router)
    requires
        flatten_spec(router) is Ok,
    ensures
        table_wf(flatten_spec(router)->Ok_0),
{
    let routes = walk_spec(Seq::empty(), router, Seq::empty());
    lemma_walk_wf(Seq::empty(), router, Seq::empty());
    lemma_group_wf(Seq::empty(), routes, 0);
    lemma_mark_wf(group_spec(Seq::empty(), routes, 0)->Ok_0);
}

/// The table of a tree answers every route of the tree with the chain
/// of that route, and holds no other chain.
pub proof fn lemma_flatten_lookup(router: Router)
    requires
        flatten_spec(router) is Ok,
    ensures
        forall|r: int|
            0 <= r < walk_spec(Seq::empty(), router, Seq::empty()).len() ==> chain_of(
                flatten_spec(router)->Ok_0,
                (#[trigger] walk_spec(Seq::empty(), router, Seq::empty())[r]).path,
                walk_spec(Seq::empty(), router, Seq::empty())[r].method,
            ) == Some(walk_spec(Seq::empty(), router, Seq::empty())[r].chain),
        forall|path: Seq<char>, method: Seq<char>|
            (#[trigger] chain_of(flatten_spec(router)->Ok_0, path, method)) is Some
                ==> walk_spec(Seq::empty(), router, Seq::empty()).contains(
                RouteView {
                    path,
                    method,
                    chain: chain_of(flatten_spec(router)->Ok_0, path, method)->0,
                },
            ),
{
    let routes = walk_spec(Seq::empty(), router, Seq::empty());
    let grouped = group_spec(Seq::empty(), routes, 0)->Ok_0;
    let table = flatten_spec(router)->Ok_0;
    assert forall|r: int| 0 <= r < routes.len() implies chain_of(
        table,
        (#[trigger] routes[r]).path,
        routes[r].method,
    ) == Some(routes[r].chain) by {
        lemma_group_lookup(Seq::empty(), routes, 0, r);
        lemma_mark_lookup(grouped, routes[r].path, routes[r].method);
    }
    assert forall|path: Seq<char>, method: Seq<char>|
        (#[trigger] chain_of(table, path, method)) is Some implies routes.contains(
        RouteView { path, method, chain: chain_of(table, path, method)->0 },
    ) by {
        lemma_mark_lookup(grouped, path, method);
        lemma_group_sound(Seq::empty(), routes, 0, path, method);
        assert(chain_of(Seq::<EntryView>::empty(), path, method) is None);
        let r = choose|r: int|
            0 <= r < routes.len() && #[trigger] routes[r] == (RouteView {
                path,
                method,
                chain: chain_of(grouped, path, method)->0,
            });
        assert(routes[r] == RouteView { path, method, chain: chain_of(table, path, method)->0 });
    }
}

/// A tree is refused exactly where two of its routes answer the same
/// method on the same path.
pub proof fn lemma_flatten_refused(router: Router)
    ensures
        flatten_spec(router) is Err <==> has_duplicate(
            walk_spec(Seq::empty(), router, Seq::empty()),
            0,
        ),
{
    let routes = walk_spec(Seq::empty(), router, Seq::empty());
    assert forall|r: int| 0 <= r < routes.len() implies chain_of(
        Seq::<EntryView>::empty(),
        (#[trigger] routes[r]).path,
        routes[r].method,
    ) is None by {}
    lemma_group_refused(Seq::empty(), routes, 0);
}

/// Whether two trees have the same shape: the same paths, and the same
/// handlers and subtrees in the same order.
pub open spec fn same_tree(a: Router, b: Router) -> bool
    decreases a, 0nat,
{
    a.path@ == b.path@ && same_items(a.items@, b.items@, 0)
}

/// Whether two lists of items agree from position `i` on.
pub open spec fn same_items(a: Seq<RouterItem>, b: Seq<RouterItem>, i: int) -> bool
    decreases a, a.len() - i,
{
    if a.len() != b.len() {
        false
    } else if i < 0 || i >= a.len() {
        true
    } else {
        &&& match a[i] {
            RouterItem::Handler(x) => b[i] matches RouterItem::Handler(y) && x@ == y@,
            RouterItem::Child(c) => b[i] matches RouterItem::Child(d) && same_tree(c, d),
        }
        &&& same_items(a, b, i + 1)
    }
}

/// Trees of the same shape have the same routes.
pub proof fn lemma_walk_same(base: Seq<char>, a: Router, b: Router, inherited: Seq<HandlerView>)
    requires
        same_tree(a, b),
    ensures
        walk_spec(base, a, inherited) == walk_spec(base, b, inherited),
    decreases a, 0nat,
{
    lemma_items_same(
        join_spec(base, a.path@),
        a.items@,
        b.items@,
        0,
        inherited,
        Seq::empty(),
    );
}

/// Lists of items that agree from `i` on contribute the same routes from
/// `i` on.
pub proof fn lemma_items_same(
    path: Seq<char>,
    a: Seq<RouterItem>,
    b: Seq<RouterItem>,
    i: int,
    globals: Seq<HandlerView>,
    locals: Seq<HandlerView>,
)
    requires
        0 <= i,
        same_items(a, b, i),
    ensures
        items_spec(path, a, i, globals, locals) == items_spec(path, b, i, globals, locals),
    decreases a, a.len() - i,
{
    if i < a.len() {
        match a[i] {
            RouterItem::Handler(h) => match h@.kind {
                KindView::Middleware => {
                    lemma_items_same(path, a, b, i + 1, globals.push(h@), locals);
                },
                KindView::LocalMiddleware => {
                    lemma_items_same(path, a, b, i + 1, globals, locals.push(h@));
                },
                KindView::Method(_) => {
                    lemma_items_same(path, a, b, i + 1, globals, locals);
                },
            },
            RouterItem::Child(c) => {
                lemma_walk_same(path, c, b[i]->Child_0, globals);
                lemma_items_same(path, a, b, i + 1, globals, locals);
            },
        }
    }
}

/// Flattening is a function of the shape of the tree: trees of the same
/// shape give the same paths in the same order, with the same chains, or
/// the same conflict.
pub proof fn lemma_flatten_deterministic(a: Router, b: Router)
    requires
        same_tree(a, b),
    ensures
        flatten_spec(a) == flatten_spec(b),
{
    lemma_walk_same(Seq::empty(), a, b, Seq::empty());
}

impl Router {
    /// The root node: its path is empty and nothing is registered on it.
    pub fn new() -> (r: Router)
        ensures
            r.path@ == Seq::<char>::empty(),
            r.items@ == Seq::<RouterItem>::empty(),
            tree_wf(r),
    {
        Router { path: String::new(), items: Vec::new() }
    }

    /// A node at `path` with nothing registered on it.
    pub fn group(path: &str) -> (r: Router)
        requires
            is_group_path(path@),
        ensures
            r.path@ == path@,
            r.items@ == Seq::<RouterItem>::empty(),
            tree_wf(r),
    {
        Router { path: String::from_str(path), items: Vec::new() }
    }

    /// Registers `child` as the next item of this node.
    pub fn push(self, child: Router) -> (r: Router)
        ensures
            with_child(self, r, child),
            tree_wf(self) && tree_wf(child) ==> tree_wf(r),
    {
        proof {
            if tree_wf(self) && tree_wf(child) {
                lemma_children_wf_push(self.items@, RouterItem::Child(child), 0);
            }
        }
        let mut r = self;
        r.items.push(RouterItem::Child(child));
        r
    }

    /// Registers `f` as the handler of `method` on this node.
    pub fn handle(self, method: Method, f: Callable) -> (r: Router)
        ensures
            with_handler(
                self,
                r,
                HandlerView { id: f.id, kind: KindView::Method(method@), location: f.location@ },
            ),
            tree_wf(self) ==> tree_wf(r),
    {
        self.push_handler(Handler::new(f, HandlerType::Method(method)))
    }

    /// Registers `f` as global middleware: it applies to the method
    /// handlers and children registered on this node after it, and to all
    /// their descendants.
    pub fn middleware(self, f: Callable) -> (r: Router)
        ensures
            with_handler(
                self,
                r,
                HandlerView { id: f.id, kind: KindView::Middleware, location: f.location@ },
            ),
            tree_wf(self) ==> tree_wf(r),
    {
        self.push_handler(Handler::new(f, HandlerType::Middleware))
    }

    /// Registers `f` as local middleware: it applies to the method
    /// handlers registered on this node after it, and to nothing else.
    pub fn local_middleware(self, f: Callable) -> (r: Router)
        ensures
            with_handler(
                self,
                r,
                HandlerView { id: f.id, kind: KindView::LocalMiddleware, location: f.location@ },
            ),
            tree_wf(self) ==> tree_wf(r),
    {
        self.push_handler(Handler::new(f, HandlerType::LocalMiddleware))
    }

    fn push_handler(self, h: Handler) -> (r: Router)
        ensures
            with_handler(self, r, h@),
            tree_wf(self) ==> tree_wf(r),
    {
        proof {
            if tree_wf(self) {
                lemma_children_wf_push(self.items@, RouterItem::Handler(h), 0);
            }
        }
        let mut r = self;
        let ghost before = r.items@;
        r.items.push(RouterItem::Handler(h));
        assert(r.items@.take(before.len() as int) =~= before);
        r
    }

    /// Registers a route below this node: a child at `path` that holds the
    /// callables but the last as local middleware and the last as the
    /// handler of `method`.
    pub fn add(self, method: Method, path: &str, handlers: Vec<Callable>) -> (r: Router)
        requires
            is_group_path(path@),
            handlers.len() > 0,
        ensures
            with_route(self, r, path@, method@, handlers@),
            tree_wf(self) ==> tree_wf(r),
    {
        let mut group = Router::group(path);
        let n = handlers.len();
        let ghost hs = handlers@;
        for f in it: handlers.into_iter()
            invariant
                it.seq() == hs,
                n == hs.len(),
                group.path@ == path@,
                tree_wf(group),
                group.items@.len() == it.index(),
                forall|i: int|
                    0 <= i < it.index() ==> is_handler_item(
                        #[trigger] group.items@[i],
                        route_handler(method@, hs, i),
                    ),
        {
            let ghost before = group.items@;
            let ghost k = it.index() as int;
            if group.items.len() + 1 == n {
                group = group.handle(method.clone(), f);
            } else {
                group = group.local_middleware(f);
            }
            assert forall|i: int| 0 <= i < k implies is_handler_item(
                #[trigger] group.items@[i],
                route_handler(method@, hs, i),
            ) by {
                assert(group.items@.take(k)[i] == before[i]);
                assert(is_handler_item(before[i], route_handler(method@, hs, i)));
            }
        }
        let ghost before = self.items@;
        let r = self.push(group);
        assert(r.items@.take(before.len() as int) =~= before);
        r
    }

    /// Registers a GET route at `path` below this node.
    pub fn get(self, path: &str, handlers: Vec<Callable>) -> (r: Router)
        requires
            is_group_path(path@),
            handlers.len() > 0,
        ensures
            with_route(self, r, path@, "GET"@, handlers@),
            tree_wf(self) ==> tree_wf(r),
    {
        self.add(Method::get(), path, handlers)
    }

    /// Registers a POST route at `path` below this node.
    pub fn post(self, path: &str, handlers: Vec<Callable>) -> (r: Router)
        requires
            is_group_path(path@),
            handlers.len() > 0,
        ensures
            with_route(self, r, path@, "POST"@, handlers@),
            tree_wf(self) ==> tree_wf(r),
    {
        self.add(Method::post(), path, handlers)
    }

    /// Registers a PUT route at `path` below this node.
    pub fn put(self, path: &str, handlers: Vec<Callable>) -> (r: Router)
        requires
            is_group_path(path@),
            handlers.len() > 0,
        ensures
            with_route(self, r, path@, "PUT"@, handlers@),
            tree_wf(self) ==> tree_wf(r),
    {
        self.add(Method::put(), path, handlers)
    }

    /// Registers a DELETE route at `path` below this node.
    pub fn delete(self, path: &str, handlers: Vec<Callable>) -> (r: Router)
        requires
            is_group_path(path@),
            handlers.len() > 0,
        ensures
            with_route(self, r, path@, "DELETE"@, handlers@),
            tree_wf(self) ==> tree_wf(r),
    {
        self.add(Method::delete(), path, handlers)
    }

    /// Registers a HEAD route at `path` below this node.
    pub fn head(self, path: &str, handlers: Vec<Callable>) -> (r: Router)
        requires
            is_group_path(path@),
            handlers.len() > 0,
        ensures
            with_route(self, r, path@, "HEAD"@, handlers@),
            tree_wf(self) ==> tree_wf(r),
    {
        self.add(Method::head(), path, handlers)
    }

    /// Registers a OPTIONS route at `path` below this node.
    pub fn options(self, path: &str, handlers: Vec<Callable>) -> (r: Router)
        requires
            is_group_path(path@),
            handlers.len() > 0,
        ensures
            with_route(self, r, path@, "OPTIONS"@, handlers@),
            tree_wf(self) ==> tree_wf(r),
    {
        self.add(Method::options(), path, handlers)
    }

    /// Registers a CONNECT route at `path` below this node.
    pub fn connect(self, path: &str, handlers: Vec<Callable>) -> (r: Router)
        requires
            is_group_path(path@),
            handlers.len() > 0,
        ensures
            with_route(self, r, path@, "CONNECT"@, handlers@),
            tree_wf(self) ==> tree_wf(r),
    {
        self.add(Method::connect(), path, handlers)
    }

    /// Registers a PATCH route at `path` below this node.
    pub fn patch(self, path: &str, handlers: Vec<Callable>) -> (r: Router)
        requires
            is_group_path(path@),
            handlers.len() > 0,
        ensures
            with_route(self, r, path@, "PATCH"@, handlers@),
            tree_wf(self) ==> tree_wf(r),
    {
        self.add(Method::patch(), path, handlers)
    }

    /// Registers a TRACE route at `path` below this node.
    pub fn trace(self, path: &str, handlers: Vec<Callable>) -> (r: Router)
        requires
            is_group_path(path@),
            handlers.len() > 0,
        ensures
            with_route(self, r, path@, "TRACE"@, handlers@),
            tree_wf(self) ==> tree_wf(r),
    {
        self.add(Method::trace(), path, handlers)
    }

    /// Registers at `path` below this node a route that answers every
    /// method that has no handler of its own there.
    pub fn all(self, path: &str, handlers: Vec<Callable>) -> (r: Router)
        requires
            is_group_path(path@),
            handlers.len() > 0,
        ensures
            with_route(self, r, path@, all_token(), handlers@),
            tree_wf(self) ==> tree_wf(r),
    {
        self.add(all(), path, handlers)
    }

    /// Registers `f` for the files below `prefix`: as the GET handler of
    /// every path below `prefix`, with the rest of the path bound to the
    /// parameter `rest`, and, where the files have an index, of `prefix`
    /// itself before that.
    pub fn static_files(self, prefix: &str, f: Callable, with_index: bool) -> (r: Router)
        requires
            is_group_path(prefix@),
        ensures
            r.path@ == self.path@,
            r.items@.len() == self.items@.len() + if with_index {
                2int
            } else {
                1int
            },
            r.items@.take(self.items@.len() as int) == self.items@,
            r.items@.last() matches RouterItem::Child(c) && is_route_group(
                c,
                files_pattern(prefix@),
                "GET"@,
                seq![f],
            ),
            with_index ==> (r.items@[self.items@.len() as int] matches RouterItem::Child(c)
                && is_route_group(c, prefix@, "GET"@, seq![f])),
            tree_wf(self) ==> tree_wf(r),
    {
        let ghost before = self.items@;
        let pattern = join_paths(prefix, "/{*rest}");
        proof {
            reveal_strlit("/{*rest}");
            assert("/{*rest}"@.len() == 8);
            assert(is_group_path(pattern@));
        }
        let second = Callable { id: f.id, location: f.location.clone() };
        let mut r = self;
        if with_index {
            r = r.get(prefix, vec![f]);
        }
        let ghost mid = r.items@;
        let r = r.get(pattern.as_str(), vec![second]);
        assert(r.items@.take(before.len() as int) =~= mid.take(before.len() as int)) by {
            assert(r.items@.take(mid.len() as int) == mid);
            assert(r.items@.take(before.len() as int) =~= r.items@.take(mid.len() as int).take(
                before.len() as int,
            ));
        }
        assert(is_route_group(
            r.items@.last()->Child_0,
            files_pattern(prefix@),
            "GET"@,
            seq![f],
        )) by {
            assert(route_handler("GET"@, seq![second], 0) == route_handler("GET"@, seq![f], 0));
        }
        r
    }

    /// Registers `f` as the handler of `method` at `path` below this node.
    pub fn route(self, method: Method, path: &str, f: Callable) -> (r: Router)
        requires
            is_group_path(path@),
        ensures
            with_route(self, r, path@, method@, seq![f]),
            tree_wf(self) ==> tree_wf(r),
    {
        let mut handlers: Vec<Callable> = Vec::new();
        handlers.push(f);
        self.add(method, path, handlers)
    }

    /// The dispatch table of this tree, or the first pair of handlers
    /// registered for the same method on the same path.
    pub fn flatten_routers(&self) -> (r: Result<RouteTable, Conflict>)
        ensures
            match flatten_spec(*self) {
                Ok(t) => r matches Ok(table) && table@ == t,
                Err(c) => r matches Err(e) && e@ == c,
            },
    {
        let mut routes: Vec<Route> = Vec::new();
        let inherited: Vec<Handler> = Vec::new();
        proof {
            reveal_strlit("");
            assert(""@ =~= Seq::empty());
        }
        Router::walk("", self, &inherited, &mut routes);
        assert(Seq::<RouteView>::empty() + walk_spec(Seq::empty(), *self, Seq::empty())
            =~= walk_spec(Seq::empty(), *self, Seq::empty()));
        match RouteTable::from_routes(routes) {
            Ok(table) => {
                let mut table = table;
                table.mark_head_aliases();
                Ok(table)
            },
            Err(c) => Err(c),
        }
    }

    /// Appends to `out` the routes of the subtree `router` mounted under
    /// `base`.
    pub fn walk(base: &str, router: &Router, inherited: &Vec<Handler>, out: &mut Vec<Route>)
        ensures
            route_views(final(out)@) == route_views(old(out)@) + walk_spec(
                base@,
                *router,
                views(inherited@),
            ),
        decreases router,
    {
        let path = join_paths(base, router.path.as_str());
        let mut globals = clone_handlers(inherited);
        let mut locals: Vec<Handler> = Vec::new();
        let ghost before = route_views(out@);
        let ghost total = walk_spec(base@, *router, views(inherited@));
        let mut i: usize = 0;
        assert(views(locals@) =~= Seq::empty());
        while i < router.items.len()
            invariant
                i <= router.items.len(),
                path@ == join_spec(base@, router.path@),
                before + total == route_views(out@) + items_spec(
                    path@,
                    router.items@,
                    i as int,
                    views(globals@),
                    views(locals@),
                ),
            decreases router.items.len() - i,
        {
            let ghost g0 = views(globals@);
            let ghost l0 = views(locals@);
            let ghost o0 = route_views(out@);
            match &router.items[i] {
                RouterItem::Handler(h) => match &h.kind {
                    HandlerType::Middleware => {
                        globals.push(h.clone());
                        assert(views(globals@) =~= g0.push(h@));
                    },
                    HandlerType::LocalMiddleware => {
                        locals.push(h.clone());
                        assert(views(locals@) =~= l0.push(h@));
                    },
                    HandlerType::Method(m) => {
                        let mut chain = clone_handlers(&globals);
                        extend_handlers(&mut chain, &locals);
                        chain.push(h.clone());
                        assert(views(chain@) =~= (g0 + l0).push(h@));
                        let route = Route { path: path.clone(), method: m.clone(), chain };
                        out.push(route);
                        assert(o0 + (seq![route@] + items_spec(path@, router.items@, i + 1, g0, l0))
                            =~= (o0 + seq![route@]) + items_spec(
                            path@,
                            router.items@,
                            i + 1,
                            g0,
                            l0,
                        ));
                    },
                },
                RouterItem::Child(c) => {
                    Router::walk(path.as_str(), c, &globals, out);
                    assert(o0 + (walk_spec(path@, *c, g0) + items_spec(
                        path@,
                        router.items@,
                        i + 1,
                        g0,
                        l0,
                    )) =~= (o0 + walk_spec(path@, *c, g0)) + items_spec(
                        path@,
                        router.items@,
                        i + 1,
                        g0,
                        l0,
                    ));
                },
            }
            i = i + 1;
        }
    }
}

} // verus!
