//! The line that is logged for each request.

use vstd::prelude::*;
use vstd::string::*;
use crate::text::{center, centered, decimal, decimal3, push_decimal, push_decimal3};

verus! {

/// The logging middleware.  It has no settings.
#[derive(Debug)]
pub struct LoggingMiddleware {
    _p: (),
}

impl LoggingMiddleware {
    pub fn new() -> (r: Self) {
        LoggingMiddleware { _p: () }
    }

    /// The line for a request that was answered with `status` after
    /// `nanos` nanoseconds.
    pub fn line(&self, status: u16, nanos: u64, ip: &str, method: &str, path: &str) -> (r: String)
        ensures
            r@ == log_line(status, nanos, ip@, method@, path@),
    {
        let mut r = String::new();
        push_decimal(&mut r, status as u64);
        r.append(" | ");
        let took = format_duration(nanos);
        let took = center(took.as_str(), 10);
        r.append(took.as_str());
        r.append(" | ");
        r.append(ip);
        r.append(" | ");
        let verb = center(method, 7);
        r.append(verb.as_str());
        r.append(" | ");
        r.append(path);
        r
    }
}

/// A duration as text with three decimals: in seconds from one second on,
/// in milliseconds from one millisecond on, else in microseconds.
pub open spec fn duration_text(nanos: u64) -> Seq<char> {
    if nanos >= 1_000_000_000 {
        let ms = (nanos / 1_000_000) as nat;
        decimal(ms / 1000) + seq!['.'] + decimal3(ms % 1000) + seq!['s']
    } else if nanos >= 1_000_000 {
        let us = (nanos / 1_000) as nat;
        decimal(us / 1000) + seq!['.'] + decimal3(us % 1000) + seq!['m', 's']
    } else {
        decimal((nanos / 1000) as nat) + seq!['.'] + decimal3((nanos % 1000) as nat) + seq![
            '\u{b5}',
            's',
        ]
    }
}

/// The line that is logged: status, duration, address of the client,
/// method and path, with the duration and the method centred.
pub open spec fn log_line(
    status: u16,
    nanos: u64,
    ip: Seq<char>,
    method: Seq<char>,
    path: Seq<char>,
) -> Seq<char> {
    decimal(status as nat) + " | "@ + centered(duration_text(nanos), 10) + " | "@ + ip + " | "@
        + centered(method, 7) + " | "@ + path
}

/// Formats a duration given in nanoseconds.
pub fn format_duration(nanos: u64) -> (r: String)
    ensures
        r@ == duration_text(nanos),
{
    let mut r = String::new();
    if nanos >= 1_000_000_000 {
        let ms = nanos / 1_000_000;
        push_decimal(&mut r, ms / 1000);
        r.push('.');
        push_decimal3(&mut r, ms % 1000);
        r.push('s');
    } else if nanos >= 1_000_000 {
        let us = nanos / 1_000;
        push_decimal(&mut r, us / 1000);
        r.push('.');
        push_decimal3(&mut r, us % 1000);
        r.push('m');
        r.push('s');
    } else {
        push_decimal(&mut r, nanos / 1000);
        r.push('.');
        push_decimal3(&mut r, nanos % 1000);
        r.push('\u{b5}');
        r.push('s');
    }
    r
}

} // verus!
