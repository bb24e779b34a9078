//! The limit on the size of request bodies.

use vstd::prelude::*;

verus! {

/// The limit that holds where none is set: four mebibytes.
pub const DEFAULT_BODY_LIMIT: usize = 4194304;

/// A middleware that sets the limit for the handlers behind it.
#[derive(Debug)]
pub struct BodyLimitMiddleware {
    max: usize,
}

impl BodyLimitMiddleware {
    /// The limit of this middleware.
    pub closed spec fn limit(&self) -> usize {
        self.max
    }

    /// A middleware that sets the limit to `max` bytes.
    pub fn new(max: usize) -> (r: Self)
        ensures
            r.limit() == max,
    {
        BodyLimitMiddleware { max }
    }

    /// The limit.
    pub fn max(&self) -> (r: usize)
        ensures
            r == self.limit(),
    {
        self.max
    }
}

/// The limit under which a body is read: the one asked for with the read,
/// else the one set for the request, else the one of the application.
pub fn effective_limit(asked: Option<usize>, request: Option<usize>, application: usize) -> (r:
    usize)
    ensures
        r == match asked {
            Some(n) => n,
            None => match request {
                Some(n) => n,
                None => application,
            },
        },
{
    match asked {
        Some(n) => n,
        None => match request {
            Some(n) => n,
            None => application,
        },
    }
}

} // verus!
