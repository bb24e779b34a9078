//! Resolution of a request to a handler chain.

use vstd::prelude::*;
use vstd::string::*;
use crate::handler::{clone_handlers, views, Handler, HandlerView};
use crate::method::{all, all_token, lemma_method_tokens_distinct, Method};
use crate::path::{normalize_path, normalize_spec};
use crate::router::{flatten_spec, Router};
use crate::table::{
    index_of_method, lemma_index_of_method, lemma_mark_keeps_methods, mark_entry_spec,
    Conflict, ConflictView, EntryView, RouteEntry, RouteTable,
};
use crate::trie::{
    brace_count, count_braces, match_view, param_views, trie_at, trie_insert, trie_match,
    trie_new, trie_refusal, trie_routes, Param, PathMatch, PathTrie, RouteError, RouteErrorView,
    MAX_ROUTE_PARAMS,
};

verus! {

/// The position of the chain that answers `method` in an entry: the chain
/// of the method itself; for HEAD, failing that, the GET chain if it
/// carries the HEAD alias; failing that, the chain of the wildcard method.
pub open spec fn select_spec(e: EntryView, method: Seq<char>) -> Option<int> {
    match index_of_method(e.methods, method, 0) {
        Some(k) => Some(k),
        None => {
            let get = index_of_method(e.methods, "GET"@, 0);
            if method == "HEAD"@ && get is Some && e.methods[get->0].head_alias {
                get
            } else {
                index_of_method(e.methods, all_token(), 0)
            }
        },
    }
}

/// What a request resolves to.
#[derive(Debug)]
pub enum Dispatch {
    /// No route matches the path.
    NotFound,
    /// A route matches the path, but nothing answers the method.
    MethodNotAllowed,
    /// The chain to run, and the parameters that the path binds.
    Found { chain: Vec<Handler>, params: Vec<Param> },
}

/// Mathematical model of a [`Dispatch`].
pub enum DispatchView {
    NotFound,
    MethodNotAllowed,
    Found { chain: Seq<HandlerView>, params: Seq<(Seq<char>, Seq<char>)> },
}

impl View for Dispatch {
    type V = DispatchView;

    open spec fn view(&self) -> DispatchView {
        match self {
            Dispatch::NotFound => DispatchView::NotFound,
            Dispatch::MethodNotAllowed => DispatchView::MethodNotAllowed,
            Dispatch::Found { chain, params } => DispatchView::Found {
                chain: views(chain@),
                params: param_views(params@),
            },
        }
    }
}

/// The status with which a response starts, before any handler has run.
pub open spec fn initial_status(d: DispatchView) -> u16 {
    match d {
        DispatchView::NotFound => 404,
        DispatchView::MethodNotAllowed => 405,
        DispatchView::Found { .. } => 200,
    }
}

/// What a request for `method` resolves to in the table `t`, when the
/// trie has found `found` for its path.
pub open spec fn dispatch_spec(
    t: Seq<EntryView>,
    found: Option<(usize, Seq<(Seq<char>, Seq<char>)>)>,
    method: Seq<char>,
) -> DispatchView {
    match found {
        None => DispatchView::NotFound,
        Some((entry, params)) => if entry >= t.len() {
            DispatchView::NotFound
        } else {
            match select_spec(t[entry as int], method) {
                None => DispatchView::MethodNotAllowed,
                Some(k) => DispatchView::Found { chain: t[entry as int].methods[k].chain, params },
            }
        },
    }
}

impl Dispatch {
    /// The status with which the response starts: 404 where no route
    /// matched, 405 where the method has no handler, 200 otherwise.
    pub fn status(&self) -> (r: u16)
        ensures
            r == initial_status(self@),
    {
        match self {
            Dispatch::NotFound => 404,
            Dispatch::MethodNotAllowed => 405,
            Dispatch::Found { .. } => 200,
        }
    }
}

impl RouteEntry {
    /// Position of the chain that answers `method`.
    pub fn select(&self, method: &Method) -> (r: Option<usize>)
        ensures
            match r {
                Some(k) => select_spec(self@, method@) == Some(k as int) && k
                    < self.methods.len(),
                None => select_spec(self@, method@) is None,
            },
    {
        match self.find_method(method) {
            Some(k) => Some(k),
            None => {
                if method.is_head() {
                    let get = Method::get();
                    match self.find_method(&get) {
                        Some(g) => {
                            if self.methods[g].head_alias {
                                return Some(g);
                            }
                        },
                        None => {},
                    }
                }
                let wildcard = all();
                self.find_method(&wildcard)
            },
        }
    }
}

/// Why a router could not be built.
#[derive(Debug)]
pub enum BuildError {
    /// Two handlers for one method on one path.
    Duplicate(Conflict),
    /// The path names more parameters than the trie can hold.
    TooManyParams { path: String },
    /// The trie refused the path.
    Route { path: String, error: RouteError },
}

/// Mathematical model of a [`BuildError`].
pub enum BuildErrorView {
    Duplicate(ConflictView),
    TooManyParams { path: Seq<char> },
    Route { path: Seq<char>, error: RouteErrorView },
}

impl View for BuildError {
    type V = BuildErrorView;

    open spec fn view(&self) -> BuildErrorView {
        match self {
            BuildError::Duplicate(c) => BuildErrorView::Duplicate(c@),
            BuildError::TooManyParams { path } => BuildErrorView::TooManyParams { path: path@ },
            BuildError::Route { path, error } => BuildErrorView::Route {
                path: path@,
                error: error@,
            },
        }
    }
}

/// The first `n` paths of a table, each with its position.
pub open spec fn indexed_paths(t: Seq<EntryView>, n: int) -> Seq<(Seq<char>, usize)> {
    Seq::new(n as nat, |i: int| (t[i].path, i as usize))
}

/// The first error met when the paths of `t` from position `i` on are
/// put into a trie that holds the paths before them.
pub open spec fn index_error_spec(t: Seq<EntryView>, i: int) -> Option<BuildErrorView>
    decreases t.len() - i,
{
    if i < 0 || i >= t.len() {
        None
    } else if brace_count(t[i].path) > MAX_ROUTE_PARAMS {
        Some(BuildErrorView::TooManyParams { path: t[i].path })
    } else {
        match trie_refusal(indexed_paths(t, i), t[i].path) {
            Some(e) => Some(BuildErrorView::Route { path: t[i].path, error: e }),
            None => index_error_spec(t, i + 1),
        }
    }
}

/// The table of a router whose paths the trie takes, or the first error.
pub open spec fn build_spec(router: Router) -> Result<Seq<EntryView>, BuildErrorView> {
    match flatten_spec(router) {
        Err(c) => Err(BuildErrorView::Duplicate(c)),
        Ok(t) => match index_error_spec(t, 0) {
            Some(e) => Err(e),
            None => Ok(t),
        },
    }
}

/// A dispatch table together with the trie that indexes its paths.
pub struct Dispatcher {
    table: RouteTable,
    trie: PathTrie,
}

impl Dispatcher {
    /// The table.
    pub closed spec fn entries(&self) -> Seq<EntryView> {
        self.table@
    }

    /// The routes that the trie holds.
    pub closed spec fn routes(&self) -> Seq<(Seq<char>, usize)> {
        trie_routes(self.trie)
    }

    /// The trie holds the paths of the table, each with its position.
    pub open spec fn wf(&self) -> bool {
        self.routes() == indexed_paths(self.entries(), self.entries().len() as int)
    }

    #[verifier::type_invariant]
    spec fn indexed(&self) -> bool {
        trie_routes(self.trie) == indexed_paths(self.table@, self.table@.len() as int)
    }

    /// The table.
    pub fn table(&self) -> (r: &RouteTable)
        ensures
            r@ == self.entries(),
    {
        &self.table
    }

    /// Indexes the paths of `table`.
    pub fn index(table: RouteTable) -> (r: Result<Dispatcher, BuildError>)
        ensures
            match index_error_spec(table@, 0) {
                None => r matches Ok(d) && d.wf() && d.entries() == table@,
                Some(e) => r matches Err(x) && x@ == e,
            },
    {
        let mut trie = trie_new();
        let mut i: usize = 0;
        while i < table.entries.len()
            invariant
                i <= table.entries.len(),
                trie_routes(trie) == indexed_paths(table@, i as int),
                index_error_spec(table@, 0) == index_error_spec(table@, i as int),
            decreases table.entries.len() - i,
        {
            let path = table.entries[i].path.as_str();
            if count_braces(path) > MAX_ROUTE_PARAMS {
                return Err(BuildError::TooManyParams { path: String::from_str(path) });
            }
            match trie_insert(trie, path, i) {
                Ok(t) => {
                    trie = t;
                    assert(indexed_paths(table@, i as int).push((path@, i)) =~= indexed_paths(
                        table@,
                        i + 1,
                    ));
                },
                Err(error) => {
                    return Err(BuildError::Route { path: String::from_str(path), error });
                },
            }
            i = i + 1;
        }
        Ok(Dispatcher { table, trie })
    }

    /// Resolves a request for `method` on the normalised path `path`: not
    /// found where the trie finds no route, and only there.
    pub fn resolve(&self, method: &Method, path: &str) -> (r: Dispatch)
        ensures
            r@ == dispatch_spec(self.entries(), trie_match(self.routes(), path@), method@),
            r@ is NotFound <==> trie_match(self.routes(), path@) is None,
    {
        proof {
            use_type_invariant(self);
        }
        let found = trie_at(&self.trie, path);
        proof {
            if found is Some {
                let value = found->0.value;
                let i = choose|i: int|
                    0 <= i < trie_routes(self.trie).len() && (#[trigger] trie_routes(
                        self.trie,
                    )[i]).1 == value;
                assert(self.table@.len() == self.table.entries.len());
                assert(indexed_paths(self.table@, self.table@.len() as int)[i].1 == i as usize);
                assert(value < self.table@.len());
            }
        }
        self.table.answer(found, method)
    }

    /// Resolves a request for `method` on the path `raw` as it came in.
    pub fn dispatch(&self, method: &Method, raw: &str) -> (r: Dispatch)
        ensures
            r@ == dispatch_spec(
                self.entries(),
                trie_match(self.routes(), normalize_spec(raw@)),
                method@,
            ),
            r@ is NotFound <==> trie_match(self.routes(), normalize_spec(raw@)) is None,
    {
        let path = normalize_path(raw);
        self.resolve(method, path.as_str())
    }
}

impl Router {
    /// Flattens the tree and indexes the paths of the table.
    pub fn build(&self) -> (r: Result<Dispatcher, BuildError>)
        ensures
            match build_spec(*self) {
                Ok(t) => r matches Ok(d) && d.wf() && d.entries() == t,
                Err(e) => r matches Err(x) && x@ == e,
            },
    {
        match self.flatten_routers() {
            Err(c) => Err(BuildError::Duplicate(c)),
            Ok(table) => Dispatcher::index(table),
        }
    }
}

/// The body that leaves the host: nothing for a HEAD request, whatever the
/// chain wrote, and for every other method what the chain wrote.
pub open spec fn emitted_body_spec(method: Seq<char>, body: Seq<u8>) -> Seq<u8> {
    if method == "HEAD"@ {
        Seq::empty()
    } else {
        body
    }
}

/// Empties the body of the response to a HEAD request.
pub fn emitted_body(method: &Method, body: Vec<u8>) -> (r: Vec<u8>)
    ensures
        r@ == emitted_body_spec(method@, body@),
{
    if method.is_head() {
        Vec::new()
    } else {
        body
    }
}

/// Whether an entry has no chain for `method`.
pub open spec fn lacks(e: EntryView, method: Seq<char>) -> bool {
    forall|k: int| 0 <= k < e.methods.len() ==> (#[trigger] e.methods[k]).method != method
}

/// A request whose path the trie does not find is answered with 404.  A
/// request whose path is found in an entry that has a chain neither for its
/// method nor for the wildcard, nor for GET where the request is HEAD, is
/// answered with 405.  In neither case is a chain handed out.
pub proof fn lemma_miss_status(
    t: Seq<EntryView>,
    found: Option<(usize, Seq<(Seq<char>, Seq<char>)>)>,
    method: Seq<char>,
)
    ensures
        found is None ==> dispatch_spec(t, found, method) == DispatchView::NotFound
            && initial_status(dispatch_spec(t, found, method)) == 404,
        found matches Some((e, _)) && e < t.len() && lacks(t[e as int], method) && lacks(
            t[e as int],
            all_token(),
        ) && (method == "HEAD"@ ==> lacks(t[e as int], "GET"@)) ==> dispatch_spec(
            t,
            found,
            method,
        ) == DispatchView::MethodNotAllowed && initial_status(dispatch_spec(t, found, method))
            == 405,
{
    if let Some((e, _)) = found {
        if e < t.len() {
            let ms = t[e as int].methods;
            lemma_index_of_method(ms, method, 0);
            lemma_index_of_method(ms, all_token(), 0);
            lemma_index_of_method(ms, "GET"@, 0);
        }
    }
}

/// On a path with a GET handler and no HEAD handler, a HEAD request is
/// answered by the whole chain of the GET handler, and what leaves the host
/// has an empty body whatever the chain wrote.  `e` is the entry of the
/// path before the HEAD aliases are set, `g` the position of its GET chain.
pub proof fn lemma_head_runs_get_chain(e: EntryView, g: int)
    requires
        index_of_method(e.methods, "GET"@, 0) == Some(g),
        lacks(e, "HEAD"@),
    ensures
        select_spec(mark_entry_spec(e), "HEAD"@) == Some(g),
        mark_entry_spec(e).methods[g].chain == e.methods[g].chain,
        select_spec(mark_entry_spec(e), "HEAD"@) == select_spec(mark_entry_spec(e), "GET"@),
        forall|body: Seq<u8>| #[trigger] emitted_body_spec("HEAD"@, body) == Seq::<u8>::empty(),
{
    lemma_method_tokens_distinct();
    lemma_index_of_method(e.methods, "GET"@, 0);
    lemma_index_of_method(e.methods, "HEAD"@, 0);
    lemma_mark_keeps_methods(e, "GET"@, 0);
    lemma_mark_keeps_methods(e, "HEAD"@, 0);
}

/// Two dispatchers built from the same tree route every request alike.
pub proof fn lemma_build_idempotent(
    tree: Router,
    d1: Dispatcher,
    d2: Dispatcher,
    method: Seq<char>,
    path: Seq<char>,
)
    requires
        d1.wf() && build_spec(tree) == Ok::<Seq<EntryView>, BuildErrorView>(d1.entries()),
        d2.wf() && build_spec(tree) == Ok::<Seq<EntryView>, BuildErrorView>(d2.entries()),
    ensures
        dispatch_spec(d1.entries(), trie_match(d1.routes(), path), method) == dispatch_spec(
            d2.entries(),
            trie_match(d2.routes(), path),
            method,
        ),
{
}

impl RouteTable {
    /// Chooses the answer to a request for `method` from what the trie
    /// found for its path.
    pub fn answer(&self, found: Option<PathMatch>, method: &Method) -> (r: Dispatch)
        ensures
            r@ == dispatch_spec(self@, match_view(found), method@),
    {
        match found {
            None => Dispatch::NotFound,
            Some(m) => {
                if m.value >= self.entries.len() {
                    return Dispatch::NotFound;
                }
                let entry = &self.entries[m.value];
                match entry.select(method) {
                    None => Dispatch::MethodNotAllowed,
                    Some(k) => {
                        let chain = clone_handlers(&entry.methods[k].chain);
                        Dispatch::Found { chain, params: m.params }
                    },
                }
            },
        }
    }
}

} // verus!
