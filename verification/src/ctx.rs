//! The per-request context: a cursor over the resolved chain.
//!
//! The host calls `next` once; every handler that wants the rest of the
//! chain to run calls `next` itself and gets the control back when the
//! handler it started has returned.  Nothing is run here: `next` says which
//! handler is to be run, and the host runs it.

use vstd::prelude::*;
use vstd::string::*;
use crate::handler::{views, Handler, HandlerView};
use crate::response::{Response, ResponseView};

verus! {

/// The state of one request.
#[derive(Debug)]
pub struct Ctx {
    /// The chain that the request resolved to.
    pub handlers: Vec<Handler>,
    /// Position of the handler that `next` hands out next.
    pub index_handler: usize,
    /// Set when the connection was given up: nothing more is handed out.
    pub closed: bool,
    /// Status and body of the response.
    pub res: Response,
}

/// Mathematical model of a [`Ctx`].
pub struct CtxView {
    pub chain: Seq<HandlerView>,
    pub cursor: nat,
    pub closed: bool,
    pub res: ResponseView,
}

impl View for Ctx {
    type V = CtxView;

    open spec fn view(&self) -> CtxView {
        CtxView {
            chain: views(self.handlers@),
            cursor: self.index_handler as nat,
            closed: self.closed,
            res: self.res@,
        }
    }
}

/// The handler that a call of `next` hands out: none once the context is
/// closed or the chain is used up, else the one under the cursor.
pub open spec fn next_handler(c: CtxView) -> Option<HandlerView> {
    if c.closed || c.cursor >= c.chain.len() {
        None
    } else {
        Some(c.chain[c.cursor as int])
    }
}

/// The state after a call of `next`: unchanged where nothing is handed
/// out; else the cursor has moved on by one, and where a method handler is
/// handed out and no status was set the status is 200.
pub open spec fn next_state(c: CtxView) -> CtxView {
    if c.closed || c.cursor >= c.chain.len() {
        c
    } else {
        CtxView {
            chain: c.chain,
            cursor: c.cursor + 1,
            closed: c.closed,
            res: ResponseView {
                status: if c.chain[c.cursor as int].kind is Method && !c.res.status_modified {
                    200
                } else {
                    c.res.status
                },
                ..c.res
            },
        }
    }
}

/// How often the handler at `pos` calls `next` while it runs, where
/// `calls` holds that number for each position of the chain.
pub open spec fn calls_at(calls: Seq<nat>, pos: nat) -> nat {
    if pos < calls.len() {
        calls[pos as int]
    } else {
        0
    }
}

/// The state after `k` calls of `next` in a row, where each handler that
/// is handed out runs to its end, with the calls of `next` that it makes
/// itself, before the following call.  `depth` bounds how deep handlers may
/// be nested; a chain cannot nest deeper than it is long.
pub open spec fn after_calls(c: CtxView, calls: Seq<nat>, k: nat, depth: nat) -> CtxView
    decreases depth, k,
{
    if k == 0 || depth == 0 || next_handler(c) is None {
        c
    } else {
        let returned = after_calls(
            next_state(c),
            calls,
            calls_at(calls, c.cursor),
            (depth - 1) as nat,
        );
        after_calls(returned, calls, (k - 1) as nat, depth)
    }
}

/// Whether the handler at position `p` was handed out between the state
/// `before` and the later state `after` of one request.
pub open spec fn handed_out(before: CtxView, after: CtxView, p: int) -> bool {
    before.cursor <= p < after.cursor
}

/// The state in which a request ends: the host calls `next` once.
pub open spec fn run_spec(c: CtxView, calls: Seq<nat>) -> CtxView {
    after_calls(c, calls, 1, c.chain.len() + 1)
}

impl Ctx {
    /// The context of a request that resolved to `handlers`, with the
    /// response as it stands before any handler has run.
    pub fn new(handlers: Vec<Handler>, res: Response) -> (r: Ctx)
        ensures
            r@ == (CtxView { chain: views(handlers@), cursor: 0, closed: false, res: res@ }),
    {
        Ctx { handlers, index_handler: 0, closed: false, res }
    }

    /// Hands out the handler that is to run now, if any, and moves on.
    pub fn next(&mut self) -> (r: Option<Handler>)
        ensures
            final(self)@ == next_state(old(self)@),
            match r {
                Some(h) => next_handler(old(self)@) == Some(h@),
                None => next_handler(old(self)@) is None,
            },
    {
        if self.closed || self.index_handler >= self.handlers.len() {
            return None;
        }
        let handler = self.handlers[self.index_handler].clone();
        if handler.is_terminal() && !self.res.status_modified {
            self.res.status = 200;
        }
        self.index_handler = self.index_handler + 1;
        Some(handler)
    }

    /// Gives the connection up: from now on `next` hands out nothing.
    pub fn close(&mut self)
        ensures
            final(self)@ == (CtxView { closed: true, ..old(self)@ }),
    {
        self.closed = true;
    }


    /// Whether `next` would hand out nothing.
    pub fn is_finished(&self) -> (r: bool)
        ensures
            r == (next_handler(self@) is None),
    {
        self.closed || self.index_handler >= self.handlers.len()
    }
}

/// The cursor never moves back and never passes the end of the chain;
/// beside the cursor only the status changes.
pub proof fn lemma_after_calls_frame(c: CtxView, calls: Seq<nat>, k: nat, depth: nat)
    requires
        c.cursor <= c.chain.len(),
    ensures
        after_calls(c, calls, k, depth).cursor >= c.cursor,
        after_calls(c, calls, k, depth).cursor <= c.chain.len(),
        after_calls(c, calls, k, depth).chain == c.chain,
        after_calls(c, calls, k, depth).closed == c.closed,
        after_calls(c, calls, k, depth).res.status_modified == c.res.status_modified,
        after_calls(c, calls, k, depth).res.body == c.res.body,
    decreases depth, k,
{
    if k == 0 || depth == 0 || next_handler(c) is None {
    } else {
        let started = next_state(c);
        lemma_after_calls_frame(started, calls, calls_at(calls, c.cursor), (depth - 1) as nat);
        let returned = after_calls(started, calls, calls_at(calls, c.cursor), (depth - 1) as nat);
        lemma_after_calls_frame(returned, calls, (k - 1) as nat, depth);
    }
}

/// On a closed context, and at the end of the chain, calls of `next`
/// change nothing: a terminal handler need not call `next`, and may.
pub proof fn lemma_next_is_noop_at_end(c: CtxView, calls: Seq<nat>, k: nat, depth: nat)
    requires
        c.closed || c.cursor >= c.chain.len(),
    ensures
        next_handler(c) is None,
        next_state(c) == c,
        after_calls(c, calls, k, depth) == c,
{
}

/// A nesting budget larger than what is left of the chain is never used
/// up: all such budgets give the same state.
pub proof fn lemma_depth_is_enough(c: CtxView, calls: Seq<nat>, k: nat, d1: nat, d2: nat)
    requires
        c.cursor <= c.chain.len(),
        d1 > c.chain.len() - c.cursor,
        d2 > c.chain.len() - c.cursor,
    ensures
        after_calls(c, calls, k, d1) == after_calls(c, calls, k, d2),
    decreases d1, k,
{
    if k == 0 || next_handler(c) is None {
    } else {
        let started = next_state(c);
        let inner = calls_at(calls, c.cursor);
        lemma_depth_is_enough(started, calls, inner, (d1 - 1) as nat, (d2 - 1) as nat);
        let returned = after_calls(started, calls, inner, (d1 - 1) as nat);
        lemma_after_calls_frame(started, calls, inner, (d1 - 1) as nat);
        lemma_depth_is_enough(returned, calls, (k - 1) as nat, d1, d2);
    }
}

/// Where every handler before position `stop` calls `next` at most once
/// and the handler at `stop` never, no handler behind `stop` is handed
/// out.  `k` is the number of calls that the running handler, or at the
/// start the host, makes: at most one, and none for the handler at `stop`.
pub proof fn lemma_stops_at(c: CtxView, calls: Seq<nat>, stop: nat, k: nat, depth: nat)
    requires
        c.cursor <= stop + 1,
        stop < c.chain.len(),
        calls_at(calls, stop) == 0,
        forall|p: nat| c.cursor <= p < stop ==> calls_at(calls, p) <= 1,
        k <= 1,
        c.cursor == stop + 1 ==> k == 0,
    ensures
        after_calls(c, calls, k, depth).cursor <= stop + 1,
    decreases depth, k,
{
    if k == 0 || depth == 0 || next_handler(c) is None {
    } else {
        let started = next_state(c);
        let inner = calls_at(calls, c.cursor);
        lemma_stops_at(started, calls, stop, inner, (depth - 1) as nat);
        let returned = after_calls(started, calls, inner, (depth - 1) as nat);
        assert(after_calls(returned, calls, 0, depth) == returned);
    }
}

/// Where every middleware from the cursor on calls `next` at least once,
/// a call of `next` runs the chain to its end, and the response of a chain
/// that ends in a method handler then has the status 200 unless a status
/// was set.
pub proof fn lemma_runs_to_the_end(c: CtxView, calls: Seq<nat>, k: nat, depth: nat)
    requires
        c.cursor <= c.chain.len(),
        c.chain.len() > 0,
        c.chain[c.chain.len() - 1].kind is Method,
        !c.closed,
        !c.res.status_modified,
        k >= 1,
        depth > c.chain.len() - c.cursor,
        forall|p: nat| c.cursor <= p < c.chain.len() - 1 ==> calls_at(calls, p) >= 1,
        c.cursor == c.chain.len() ==> c.res.status == 200,
    ensures
        after_calls(c, calls, k, depth).cursor == c.chain.len(),
        after_calls(c, calls, k, depth).res.status == 200,
    decreases depth, k,
{
    if c.cursor < c.chain.len() {
        let started = next_state(c);
        let inner = calls_at(calls, c.cursor);
        let returned = after_calls(started, calls, inner, (depth - 1) as nat);
        if c.cursor == c.chain.len() - 1 {
            lemma_next_is_noop_at_end(started, calls, inner, (depth - 1) as nat);
        } else {
            lemma_runs_to_the_end(started, calls, inner, (depth - 1) as nat);
        }
        lemma_after_calls_frame(started, calls, inner, (depth - 1) as nat);
        lemma_next_is_noop_at_end(returned, calls, (k - 1) as nat, depth);
    }
}

/// Where every middleware calls `next`, the whole chain runs: the cursor
/// ends behind the method handler, and the status is 200 unless a handler
/// set one.
pub proof fn lemma_whole_chain_runs(c: CtxView, calls: Seq<nat>)
    requires
        c.cursor == 0,
        c.chain.len() > 0,
        c.chain[c.chain.len() - 1].kind is Method,
        !c.closed,
        !c.res.status_modified,
        forall|p: nat| p < c.chain.len() - 1 ==> calls_at(calls, p) >= 1,
    ensures
        run_spec(c, calls).cursor == c.chain.len(),
        run_spec(c, calls).res.status == 200,
        forall|p: int| 0 <= p < c.chain.len() ==> handed_out(c, run_spec(c, calls), p),
{
    lemma_runs_to_the_end(c, calls, 1, c.chain.len() + 1);
}

/// A middleware that never calls `next` keeps every handler behind it from
/// running, provided that no handler before it calls `next` twice: of a
/// fresh context, the request ends with the cursor right behind it.
pub proof fn lemma_short_circuit(c: CtxView, calls: Seq<nat>, stop: nat)
    requires
        c.cursor == 0,
        stop < c.chain.len(),
        calls_at(calls, stop) == 0,
        forall|p: nat| p < stop ==> calls_at(calls, p) <= 1,
    ensures
        run_spec(c, calls).cursor <= stop + 1,
        forall|p: int|
            stop < p < c.chain.len() ==> !handed_out(c, run_spec(c, calls), p),
{
    lemma_stops_at(c, calls, stop, 1, c.chain.len() + 1);
}

} // verus!
