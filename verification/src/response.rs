//! The part of a response that the handlers of a chain decide: the status
//! and the body.

use vstd::prelude::*;
use vstd::string::*;
use crate::bridge::{reason_of, reason_phrase};

verus! {

/// Status and body of a response.
#[derive(Debug)]
pub struct Response {
    pub status: u16,
    /// Whether a handler has set the status.
    pub status_modified: bool,
    pub body: Vec<u8>,
}

/// Mathematical model of a [`Response`].
pub struct ResponseView {
    pub status: u16,
    pub status_modified: bool,
    pub body: Seq<u8>,
}

impl View for Response {
    type V = ResponseView;

    open spec fn view(&self) -> ResponseView {
        ResponseView {
            status: self.status,
            status_modified: self.status_modified,
            body: self.body@,
        }
    }
}

/// The body that `send_status` leaves: the body that is there, or, where
/// there is none, the standard reason of the status, if it has one.
pub open spec fn status_body(status: u16, body: Seq<u8>) -> Seq<u8> {
    if body.len() > 0 {
        body
    } else {
        match reason_of(status) {
            Some(reason) => vstd::utf8::encode_utf8(reason),
            None => Seq::empty(),
        }
    }
}

impl Response {
    /// A response with the given status, which does not count as set, and
    /// without a body.
    pub fn new(status: u16) -> (r: Response)
        ensures
            r@ == (ResponseView { status, status_modified: false, body: Seq::empty() }),
    {
        Response { status, status_modified: false, body: Vec::new() }
    }

    /// Sets the status.
    pub fn status(&mut self, status: u16)
        ensures
            final(self)@ == (ResponseView { status, status_modified: true, ..old(self)@ }),
    {
        self.status = status;
        self.status_modified = true;
    }

    /// Sets the body.
    pub fn send(&mut self, body: Vec<u8>)
        ensures
            final(self)@ == (ResponseView { body: body@, ..old(self)@ }),
    {
        self.body = body;
    }

    /// Sets the status and, where the response has no body, makes the
    /// standard reason of the status the body.
    pub fn send_status(&mut self, status: u16)
        ensures
            final(self)@ == (ResponseView {
                status,
                status_modified: true,
                body: status_body(status, old(self)@.body),
            }),
    {
        self.status(status);
        if self.body.len() == 0 {
            let phrase = reason_phrase(status);
            match phrase {
                Some(reason) => {
                    let text = reason.as_str();
                    let bytes = text.as_bytes_vec();
                    self.body = bytes;
                },
                None => {
                    assert(self.body@ =~= Seq::<u8>::empty());
                },
            }
        }
    }
}

} // verus!
