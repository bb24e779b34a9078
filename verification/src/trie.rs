//! The path trie of the `matchit` crate, as far as this library uses it.
//!
//! What the trie answers is taken on trust and given a name; the library
//! proves what it does with the answers.

use vstd::prelude::*;
use vstd::string::*;

verus! {

/// The most parameters that a route may name.
pub const MAX_ROUTE_PARAMS: usize = 25;

/// How many opening braces `s` holds.
pub open spec fn brace_count(s: Seq<char>) -> nat
    decreases s.len(),
{
    if s.len() == 0 {
        0
    } else {
        brace_count(s.drop_last()) + if s.last() == '{' {
            1nat
        } else {
            0nat
        }
    }
}

/// Counts the opening braces of `s`.
pub fn count_braces(s: &str) -> (r: usize)
    ensures
        r == brace_count(s@),
{
    let n = s.unicode_len();
    let mut count: usize = 0;
    let mut i: usize = 0;
    while i < n
        invariant
            i <= n,
            n == s@.len(),
            count == brace_count(s@.take(i as int)),
            count <= i,
        decreases n - i,
    {
        let c = s.get_char(i);
        assert(s@.take(i + 1).drop_last() =~= s@.take(i as int));
        if c == '{' {
            count = count + 1;
        }
        i = i + 1;
    }
    assert(s@.take(n as int) =~= s@);
    count
}

/// A radix trie of the `matchit` crate that maps route patterns to
/// positions in a table.
#[verifier::external_body]
pub struct PathTrie {
    inner: matchit::Router<usize>,
}

/// The routes that a trie holds, each with its value, in the order of
/// insertion.
pub uninterp spec fn trie_routes(t: PathTrie) -> Seq<(Seq<char>, usize)>;

/// Why a trie that holds `routes` refuses `route`, or `None` if it takes it.
pub uninterp spec fn trie_refusal(routes: Seq<(Seq<char>, usize)>, route: Seq<char>) -> Option<
    RouteErrorView,
>;

/// What a trie that holds `routes` finds for `path`: the value of the
/// matching route and the parameters bound on the way, or `None`.
pub uninterp spec fn trie_match(routes: Seq<(Seq<char>, usize)>, path: Seq<char>) -> Option<
    (usize, Seq<(Seq<char>, Seq<char>)>),
>;

/// Why the trie refused a route.
#[derive(Debug)]
pub enum RouteError {
    /// The route conflicts with the route `with`, inserted before.
    Conflict { with: String },
    /// More than one parameter in one path segment.
    InvalidParamSegment,
    /// A parameter without a valid name or with unmatched braces.
    InvalidParam,
    /// A catch-all parameter that is not at the end of the route.
    InvalidCatchAll,
    /// A refusal of a kind unknown to this library.
    Other,
}

/// Mathematical model of a [`RouteError`].
pub enum RouteErrorView {
    Conflict { with: Seq<char> },
    InvalidParamSegment,
    InvalidParam,
    InvalidCatchAll,
    Other,
}

impl View for RouteError {
    type V = RouteErrorView;

    open spec fn view(&self) -> RouteErrorView {
        match self {
            RouteError::Conflict { with } => RouteErrorView::Conflict { with: with@ },
            RouteError::InvalidParamSegment => RouteErrorView::InvalidParamSegment,
            RouteError::InvalidParam => RouteErrorView::InvalidParam,
            RouteError::InvalidCatchAll => RouteErrorView::InvalidCatchAll,
            RouteError::Other => RouteErrorView::Other,
        }
    }
}

/// A named path parameter bound by a match.
#[derive(Debug)]
pub struct Param {
    pub name: String,
    pub value: String,
}

impl View for Param {
    type V = (Seq<char>, Seq<char>);

    open spec fn view(&self) -> (Seq<char>, Seq<char>) {
        (self.name@, self.value@)
    }
}

/// The models of a sequence of parameters, in order.
pub open spec fn param_views(s: Seq<Param>) -> Seq<(Seq<char>, Seq<char>)> {
    s.map_values(|p: Param| p@)
}

/// What the trie found for a path.
#[derive(Debug)]
pub struct PathMatch {
    /// The value stored with the matching route.
    pub value: usize,
    /// The parameters, in the order in which the route names them.
    pub params: Vec<Param>,
}

impl View for PathMatch {
    type V = (usize, Seq<(Seq<char>, Seq<char>)>);

    open spec fn view(&self) -> (usize, Seq<(Seq<char>, Seq<char>)>) {
        (self.value, param_views(self.params@))
    }
}

/// The model of an optional match.
pub open spec fn match_view(m: Option<PathMatch>) -> Option<(usize, Seq<(Seq<char>, Seq<char>)>)> {
    match m {
        Some(m) => Some(m@),
        None => None,
    }
}

/// `matchit::Router::new`: the new trie holds no route.
#[verifier::external_body]
pub(crate) fn trie_new() -> (t: PathTrie)
    ensures
        trie_routes(t) == Seq::<(Seq<char>, usize)>::empty(),
{
    PathTrie { inner: matchit::Router::new() }
}

/// `matchit::Router::insert`: whether the trie takes the route depends on
/// the routes it holds and on the new route alone.  A route that is taken
/// is held after those that were there; for a refusal the crate's error is
/// handed on variant by variant, and the trie is given up.  The crate
/// panics on a route with more than `MAX_ROUTE_PARAMS` parameters, each of
/// which takes an opening brace.
#[verifier::external_body]
pub(crate) fn trie_insert(t: PathTrie, route: &str, value: usize) -> (r: Result<
    PathTrie,
    RouteError,
>)
    requires
        brace_count(route@) <= MAX_ROUTE_PARAMS,
    ensures
        match r {
            Ok(t2) => trie_refusal(trie_routes(t), route@) is None && trie_routes(t2)
                == trie_routes(t).push((route@, value)),
            Err(e) => trie_refusal(trie_routes(t), route@) == Some(e@),
        },
{
    let mut t = t;
    match t.inner.insert(route, value) {
        Ok(()) => Ok(t),
        Err(matchit::InsertError::Conflict { with }) => Err(RouteError::Conflict { with }),
        Err(matchit::InsertError::InvalidParamSegment) => Err(RouteError::InvalidParamSegment),
        Err(matchit::InsertError::InvalidParam) => Err(RouteError::InvalidParam),
        Err(matchit::InsertError::InvalidCatchAll) => Err(RouteError::InvalidCatchAll),
        Err(_) => Err(RouteError::Other),
    }
}

/// `matchit::Router::at`: what is found depends on the routes held and on
/// the path alone, and a value that is found is the value of one of the
/// routes held.
#[verifier::external_body]
pub(crate) fn trie_at(t: &PathTrie, path: &str) -> (r: Option<PathMatch>)
    ensures
        match_view(r) == trie_match(trie_routes(*t), path@),
        r matches Some(m) ==> exists|i: int|
            0 <= i < trie_routes(*t).len() && (#[trigger] trie_routes(*t)[i]).1 == m.value,
{
    match t.inner.at(path) {
        Ok(m) => {
            let mut params = Vec::new();
            for (k, v) in m.params.iter() {
                params.push(Param { name: k.to_string(), value: v.to_string() });
            }
            Some(PathMatch { value: *m.value, params })
        },
        Err(_) => None,
    }
}

} // verus!
