use maw::ctx::Ctx;
use maw::handler::{Callable, Handler, HandlerType};
use maw::into_response::IntoResponse;
use maw::method::Method;
use maw::middlewares::catch_panic::{
    extract_panic_message, CatchPanicMiddleware, NoPanicHandler, INTERNAL_SERVER_ERROR,
};
use maw::response::Response;
use maw::status_error::StatusError;

fn chain(middleware: u64) -> Vec<Handler> {
    let mut v: Vec<Handler> = (0..middleware)
        .map(|i| Handler::new(Callable::new(i), HandlerType::Middleware))
        .collect();
    v.push(Handler::new(Callable::new(middleware), HandlerType::Method(Method::get())));
    v
}

/// Runs a chain the way a host does: `calls[i]` is how often the handler at
/// position `i` calls `next`.  Returns the positions that ran, in order.
fn run(ctx: &mut Ctx, calls: &[usize]) -> Vec<u64> {
    let mut ran = Vec::new();
    step(ctx, calls, &mut ran);
    ran
}

fn step(ctx: &mut Ctx, calls: &[usize], ran: &mut Vec<u64>) {
    if let Some(h) = ctx.next() {
        ran.push(h.id);
        let n = calls.get(h.id as usize).copied().unwrap_or(0);
        for _ in 0..n {
            step(ctx, calls, ran);
        }
    }
}

#[test]
fn next_hands_out_the_chain_in_order() {
    let mut ctx = Ctx::new(chain(2), Response::new(404));
    assert_eq!(ctx.index_handler, 0);
    assert!(!ctx.closed);
    assert!(!ctx.is_finished());
    assert_eq!(ctx.next().map(|h| h.id), Some(0));
    assert_eq!(ctx.next().map(|h| h.id), Some(1));
    assert_eq!(ctx.res.status, 404);
    assert_eq!(ctx.next().map(|h| h.id), Some(2));
    assert_eq!(ctx.index_handler, 3);
    assert!(ctx.is_finished());
}

#[test]
fn next_at_the_end_of_the_chain_does_nothing() {
    let mut ctx = Ctx::new(chain(0), Response::new(404));
    assert!(ctx.next().is_some());
    assert!(ctx.next().is_none());
    assert!(ctx.next().is_none());
    assert_eq!(ctx.index_handler, 1);
    assert_eq!(ctx.res.status, 200);
}

#[test]
fn next_on_an_empty_chain_does_nothing() {
    let mut ctx = Ctx::new(Vec::new(), Response::new(404));
    assert!(ctx.is_finished());
    assert!(ctx.next().is_none());
    assert_eq!(ctx.index_handler, 0);
    assert_eq!(ctx.res.status, 404);
}

#[test]
fn a_closed_context_hands_out_nothing() {
    let mut ctx = Ctx::new(chain(2), Response::new(404));
    assert!(ctx.next().is_some());
    ctx.close();
    assert!(ctx.closed);
    assert!(ctx.is_finished());
    assert!(ctx.next().is_none());
    assert_eq!(ctx.index_handler, 1);
    assert_eq!(ctx.res.status, 404);
}

#[test]
fn the_status_defaults_to_200_when_the_method_handler_begins() {
    let mut ctx = Ctx::new(chain(1), Response::new(404));
    ctx.next();
    assert_eq!(ctx.res.status, 404);
    ctx.next();
    assert_eq!(ctx.res.status, 200);
    assert!(!ctx.res.status_modified);
}

#[test]
fn a_status_set_by_middleware_is_kept() {
    let mut ctx = Ctx::new(chain(1), Response::new(404));
    ctx.next();
    ctx.res.status(418);
    ctx.next();
    assert_eq!(ctx.res.status, 418);
    assert!(ctx.res.status_modified);
}

#[test]
fn every_handler_calling_next_once_runs_the_whole_chain() {
    let mut ctx = Ctx::new(chain(3), Response::new(404));
    assert_eq!(run(&mut ctx, &[1, 1, 1, 0]), vec![0, 1, 2, 3]);
    assert_eq!(ctx.res.status, 200);
}

#[test]
fn a_middleware_that_never_calls_next_stops_the_chain() {
    let mut ctx = Ctx::new(chain(3), Response::new(404));
    assert_eq!(run(&mut ctx, &[1, 0, 1, 1]), vec![0, 1]);
    assert_eq!(ctx.index_handler, 2);
    assert_eq!(ctx.res.status, 404);
}

#[test]
fn a_terminal_handler_may_call_next() {
    let mut ctx = Ctx::new(chain(1), Response::new(404));
    assert_eq!(run(&mut ctx, &[1, 5]), vec![0, 1]);
    assert_eq!(ctx.index_handler, 2);
}

#[test]
fn a_second_call_of_next_runs_what_an_inner_middleware_skipped() {
    let mut ctx = Ctx::new(chain(2), Response::new(404));
    assert_eq!(run(&mut ctx, &[2, 0, 0]), vec![0, 1, 2]);
}

#[test]
fn a_panic_is_answered_with_500() {
    let mw = CatchPanicMiddleware::new();
    assert_eq!(*mw.get_handler(), NoPanicHandler);
    let mut ctx = Ctx::new(chain(1), Response::new(200));
    ctx.next();
    mw.recover(&mut ctx);
    assert_eq!(ctx.res.status, INTERNAL_SERVER_ERROR);
    assert_eq!(ctx.res.status, 500);
    assert!(ctx.res.status_modified);
    assert_eq!(ctx.index_handler, 1);
    let own = mw.on_panic(17u8);
    assert_eq!(*own.get_handler(), 17);
}

#[test]
fn panic_messages() {
    assert_eq!(extract_panic_message(Some("boom")), "boom");
    assert_eq!(extract_panic_message(None), "Unknown panic type");
}

#[test]
fn response_status_and_body() {
    let mut res = Response::new(200);
    assert_eq!(res.status, 200);
    assert!(!res.status_modified);
    assert!(res.body.is_empty());
    res.status(201);
    assert_eq!(res.status, 201);
    assert!(res.status_modified);
    res.send(b"made".to_vec());
    assert_eq!(res.body, b"made".to_vec());
    assert_eq!(res.status, 201);
}

#[test]
fn send_status_fills_an_empty_body_with_the_reason() {
    let mut res = Response::new(200);
    res.send_status(404);
    assert_eq!(res.status, 404);
    assert!(res.status_modified);
    assert_eq!(res.body, b"Not Found".to_vec());
    let mut res = Response::new(200);
    res.send_status(401);
    assert_eq!(res.body, b"Unauthorized".to_vec());
}

#[test]
fn send_status_keeps_a_body_that_is_there() {
    let mut res = Response::new(200);
    res.send(b"gone fishing".to_vec());
    res.send_status(503);
    assert_eq!(res.status, 503);
    assert_eq!(res.body, b"gone fishing".to_vec());
}

#[test]
fn send_status_of_a_code_without_reason_leaves_the_body_empty() {
    let mut res = Response::new(200);
    res.send_status(299);
    assert_eq!(res.status, 299);
    assert!(res.body.is_empty());
    let mut res = Response::new(200);
    res.send_status(42);
    assert_eq!(res.status, 42);
    assert!(res.body.is_empty());
}

#[test]
fn returned_values_become_responses() {
    let fresh = || Ctx::new(chain(0), Response::new(200));
    let mut c = fresh();
    ().into_response(&mut c);
    assert_eq!(c.res.status, 200);
    assert!(c.res.body.is_empty());

    let mut c = fresh();
    "hello".into_response(&mut c);
    assert_eq!(c.res.body, b"hello".to_vec());
    assert!(!c.res.status_modified);

    let mut c = fresh();
    String::from("text").into_response(&mut c);
    assert_eq!(c.res.body, b"text".to_vec());

    let mut c = fresh();
    vec![1u8, 2, 3].into_response(&mut c);
    assert_eq!(c.res.body, vec![1u8, 2, 3]);

    let mut c = fresh();
    Some("some").into_response(&mut c);
    assert_eq!(c.res.body, b"some".to_vec());

    let mut c = fresh();
    c.res.send(b"kept".to_vec());
    Option::<String>::None.into_response(&mut c);
    assert_eq!(c.res.body, b"kept".to_vec());

    let mut c = fresh();
    Ok::<&'static str, StatusError>("fine").into_response(&mut c);
    assert_eq!(c.res.status, 200);
    assert_eq!(c.res.body, b"fine".to_vec());

    let mut c = fresh();
    let failed: Result<(), StatusError> = Err(StatusError::bad_request().brief("no id"));
    failed.into_response(&mut c);
    assert_eq!(c.res.status, 400);
    assert!(c.res.status_modified);
    assert_eq!(c.res.body, b"no id".to_vec());
    assert_eq!(c.index_handler, 0);
}

#[test]
fn status_errors() {
    let e = StatusError::bad_request();
    assert_eq!((e.code, e.brief.as_str()), (400, "Bad Request"));
    let e = StatusError::unprocessable_entity();
    assert_eq!((e.code, e.brief.as_str()), (422, "Unprocessable Entity"));
    let e = StatusError::unprocessable_entity().brief("bad shape");
    assert_eq!((e.code, e.brief.as_str()), (422, "bad shape"));
}
