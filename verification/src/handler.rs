//! Handlers as the router sees them: an identity, a role and the place of
//! registration.  The callable itself stays with the host, which finds it
//! again by the identity.

use vstd::prelude::*;
use vstd::string::*;
use crate::method::Method;

verus! {

/// The role a handler was registered in.
#[derive(Debug)]
pub enum HandlerType {
    /// Middleware inherited by the node's later handlers and children and by
    /// all their descendants.
    Middleware,
    /// Middleware for the later method handlers of the same node only.
    LocalMiddleware,
    /// The terminal handler of one method.
    Method(Method),
}

/// Mathematical model of a [`HandlerType`].
pub enum KindView {
    Middleware,
    LocalMiddleware,
    Method(Seq<char>),
}

impl View for HandlerType {
    type V = KindView;

    open spec fn view(&self) -> KindView {
        match self {
            HandlerType::Middleware => KindView::Middleware,
            HandlerType::LocalMiddleware => KindView::LocalMiddleware,
            HandlerType::Method(m) => KindView::Method(m@),
        }
    }
}

impl Clone for HandlerType {
    fn clone(&self) -> (r: Self)
        ensures
            r@ == self@,
    {
        match self {
            HandlerType::Middleware => HandlerType::Middleware,
            HandlerType::LocalMiddleware => HandlerType::LocalMiddleware,
            HandlerType::Method(m) => HandlerType::Method(m.clone()),
        }
    }
}

/// A registered handler.
#[derive(Debug)]
pub struct Handler {
    /// Identity of the callable; the host runs handlers by this number.
    pub id: u64,
    /// Role of the handler.
    pub kind: HandlerType,
    /// Where the handler was registered, for diagnostics; may be empty.
    pub location: String,
}

/// Mathematical model of a [`Handler`].
pub struct HandlerView {
    pub id: u64,
    pub kind: KindView,
    pub location: Seq<char>,
}

impl View for Handler {
    type V = HandlerView;

    open spec fn view(&self) -> HandlerView {
        HandlerView { id: self.id, kind: self.kind@, location: self.location@ }
    }
}

impl Clone for Handler {
    fn clone(&self) -> (r: Self)
        ensures
            r@ == self@,
    {
        Handler { id: self.id, kind: self.kind.clone(), location: self.location.clone() }
    }
}

/// What a registration verb is given: the identity of a callable and the
/// place of the registration.
#[derive(Debug)]
pub struct Callable {
    pub id: u64,
    pub location: String,
}

impl Callable {
    /// A callable registered at an unknown place.
    pub fn new(id: u64) -> (r: Callable)
        ensures
            r.id == id,
            r.location@ == Seq::<char>::empty(),
    {
        Callable { id, location: String::new() }
    }

    /// A callable registered at `location`.
    pub fn at(id: u64, location: &str) -> (r: Callable)
        ensures
            r.id == id,
            r.location@ == location@,
    {
        Callable { id, location: String::from_str(location) }
    }
}

/// The models of a sequence of handlers, in order.
pub open spec fn views(s: Seq<Handler>) -> Seq<HandlerView> {
    s.map_values(|h: Handler| h@)
}

/// The name of a role as it appears in diagnostics.
pub open spec fn kind_text(k: KindView) -> Seq<char> {
    match k {
        KindView::Middleware => "Middleware"@,
        KindView::LocalMiddleware => "LocalMiddleware"@,
        KindView::Method(m) => "Method("@ + m + ")"@,
    }
}

impl HandlerType {
    /// The name of the role, for diagnostics.
    pub fn describe(&self) -> (r: String)
        ensures
            r@ == kind_text(self@),
    {
        match self {
            HandlerType::Middleware => String::from_str("Middleware"),
            HandlerType::LocalMiddleware => String::from_str("LocalMiddleware"),
            HandlerType::Method(m) => String::from_str("Method(").concat(m.as_str()).concat(")"),
        }
    }
}

impl Handler {
    /// Role and place of registration, for diagnostics.
    pub fn describe(&self) -> (r: String)
        ensures
            r@ == kind_text(self@.kind) + ": "@ + self@.location,
    {
        self.kind.describe().concat(": ").concat(self.location.as_str())
    }

    /// The handler that `f` becomes when it is registered in the role `kind`.
    pub fn new(f: Callable, kind: HandlerType) -> (r: Handler)
        ensures
            r@ == (HandlerView { id: f.id, kind: kind@, location: f.location@ }),
    {
        Handler { id: f.id, kind, location: f.location }
    }

    /// The role of this handler.
    pub fn handler_type(&self) -> (r: &HandlerType)
        ensures
            r@ == self@.kind,
    {
        &self.kind
    }

    /// Whether this handler ends a chain.
    pub fn is_terminal(&self) -> (r: bool)
        ensures
            r == (self@.kind is Method),
    {
        match &self.kind {
            HandlerType::Method(_) => true,
            _ => false,
        }
    }
}

/// Appends copies of the handlers of `src` to `dst`.
pub fn extend_handlers(dst: &mut Vec<Handler>, src: &Vec<Handler>)
    ensures
        views(final(dst)@) == views(old(dst)@) + views(src@),
{
    let ghost d0 = views(dst@);
    let mut i: usize = 0;
    while i < src.len()
        invariant
            i <= src.len(),
            views(dst@) == d0 + views(src@).take(i as int),
        decreases src.len() - i,
    {
        let ghost before = views(dst@);
        dst.push(src[i].clone());
        assert(views(dst@) =~= before.push(src[i as int]@));
        i = i + 1;
    }
}

/// Copies a list of handlers.
pub fn clone_handlers(v: &Vec<Handler>) -> (r: Vec<Handler>)
    ensures
        views(r@) == views(v@),
{
    let mut r: Vec<Handler> = Vec::new();
    extend_handlers(&mut r, v);
    r
}

} // verus!
