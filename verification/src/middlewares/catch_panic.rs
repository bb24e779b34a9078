//! What happens when a handler panics and the host has caught it.

use vstd::prelude::*;
use vstd::string::*;
use crate::ctx::{Ctx, CtxView};
use crate::response::ResponseView;

verus! {

/// The status of a response to a request whose chain panicked.
pub const INTERNAL_SERVER_ERROR: u16 = 500;

/// Stands for "no handler of one's own": the panic is answered with 500.
#[derive(Clone, Copy, Debug, PartialEq, Eq, Structural)]
pub struct NoPanicHandler;

/// A middleware that answers panics of the handlers behind it.
#[derive(Debug)]
pub struct CatchPanicMiddleware<F> {
    on_panic: F,
}

impl CatchPanicMiddleware<NoPanicHandler> {
    /// A middleware without a handler of its own.
    pub fn new() -> (r: Self)
        ensures
            r.handler() == NoPanicHandler,
    {
        CatchPanicMiddleware { on_panic: NoPanicHandler }
    }

    /// Answers a panic: the response gets the status 500, and the status
    /// counts as set.
    pub fn recover(&self, ctx: &mut Ctx)
        ensures
            final(ctx)@ == (CtxView {
                res: ResponseView {
                    status: INTERNAL_SERVER_ERROR,
                    status_modified: true,
                    ..old(ctx)@.res
                },
                ..old(ctx)@
            }),
    {
        ctx.res.status(INTERNAL_SERVER_ERROR);
    }
}

impl<F> CatchPanicMiddleware<F> {
    /// The handler that is called with the panic.
    pub closed spec fn handler(&self) -> F {
        self.on_panic
    }

    /// The same middleware with `f` as the handler of panics.
    pub fn on_panic<H>(self, f: H) -> (r: CatchPanicMiddleware<H>)
        ensures
            r.handler() == f,
    {
        CatchPanicMiddleware { on_panic: f }
    }

    /// The handler of panics.
    pub fn get_handler(&self) -> (r: &F)
        ensures
            *r == self.handler(),
    {
        &self.on_panic
    }
}

/// The text that is logged for a panic: the message where the panic
/// carried one, else a note that it carried something else.
pub fn extract_panic_message(message: Option<&str>) -> (r: String)
    ensures
        r@ == match message {
            Some(m) => m@,
            None => "Unknown panic type"@,
        },
{
    match message {
        Some(m) => String::from_str(m),
        None => String::from_str("Unknown panic type"),
    }
}

} // verus!
