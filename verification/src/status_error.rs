//! An error that is itself the response: a status and a short text.

use vstd::prelude::*;
use vstd::string::*;

verus! {

/// A status code with a brief message for the body.
#[derive(Debug)]
pub struct StatusError {
    pub code: u16,
    pub brief: String,
}

impl View for StatusError {
    type V = (u16, Seq<char>);

    open spec fn view(&self) -> (u16, Seq<char>) {
        (self.code, self.brief@)
    }
}

impl StatusError {
    /// 400 with the standard reason as its message.
    pub fn bad_request() -> (r: StatusError)
        ensures
            r@ == (400u16, "Bad Request"@),
    {
        StatusError { code: 400, brief: String::from_str("Bad Request") }
    }

    /// 422 with the standard reason as its message.
    pub fn unprocessable_entity() -> (r: StatusError)
        ensures
            r@ == (422u16, "Unprocessable Entity"@),
    {
        StatusError { code: 422, brief: String::from_str("Unprocessable Entity") }
    }

    /// The same status with another message.
    pub fn brief(self, text: &str) -> (r: StatusError)
        ensures
            r@ == (self.code, text@),
    {
        StatusError { code: self.code, brief: String::from_str(text) }
    }
}

} // verus!
