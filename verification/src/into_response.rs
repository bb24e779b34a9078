//! What a handler may return, and what each kind of value does to the
//! response.

use vstd::prelude::*;
use vstd::string::*;
use crate::ctx::{Ctx, CtxView};
use crate::response::ResponseView;
use crate::status_error::StatusError;

verus! {

/// A value that a handler may return.
pub trait IntoResponse: Sized {
    /// The response after a handler has returned this value.
    spec fn response_spec(self, res: ResponseView) -> ResponseView;

    /// Puts the value into the response of `c`; nothing else of the
    /// context changes.
    fn into_response(self, c: &mut Ctx)
        ensures
            final(c)@ == (CtxView { res: self.response_spec(old(c)@.res), ..old(c)@ }),
    ;
}

/// Nothing: the response stays as the handler left it.
impl IntoResponse for () {
    open spec fn response_spec(self, res: ResponseView) -> ResponseView {
        res
    }

    fn into_response(self, c: &mut Ctx) {
    }
}

/// A value or an error: the error sets the status and makes its message
/// the body.
impl<T: IntoResponse> IntoResponse for Result<T, StatusError> {
    open spec fn response_spec(self, res: ResponseView) -> ResponseView {
        match self {
            Ok(value) => value.response_spec(res),
            Err(e) => ResponseView {
                status: e.code,
                status_modified: true,
                body: vstd::utf8::encode_utf8(e.brief@),
            },
        }
    }

    fn into_response(self, c: &mut Ctx) {
        match self {
            Ok(value) => value.into_response(c),
            Err(e) => {
                c.res.status(e.code);
                c.res.send(e.brief.as_str().as_bytes_vec());
            },
        }
    }
}

/// A value or nothing.
impl<T: IntoResponse> IntoResponse for Option<T> {
    open spec fn response_spec(self, res: ResponseView) -> ResponseView {
        match self {
            Some(value) => value.response_spec(res),
            None => res,
        }
    }

    fn into_response(self, c: &mut Ctx) {
        match self {
            Some(value) => value.into_response(c),
            None => {},
        }
    }
}

/// A text: it becomes the body.
impl IntoResponse for String {
    open spec fn response_spec(self, res: ResponseView) -> ResponseView {
        ResponseView { body: vstd::utf8::encode_utf8(self@), ..res }
    }

    fn into_response(self, c: &mut Ctx) {
        c.res.send(self.as_str().as_bytes_vec());
    }
}

/// A text: it becomes the body.
impl IntoResponse for &'static str {
    open spec fn response_spec(self, res: ResponseView) -> ResponseView {
        ResponseView { body: vstd::utf8::encode_utf8(self@), ..res }
    }

    fn into_response(self, c: &mut Ctx) {
        c.res.send(self.as_bytes_vec());
    }
}

/// Bytes: they become the body.
impl IntoResponse for Vec<u8> {
    open spec fn response_spec(self, res: ResponseView) -> ResponseView {
        ResponseView { body: self@, ..res }
    }

    fn into_response(self, c: &mut Ctx) {
        c.res.send(self);
    }
}

} // verus!
