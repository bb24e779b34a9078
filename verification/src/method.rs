//! Request methods.
//!
//! A method is identified by its token, compared byte for byte.  The nine
//! standard methods have constructors; `all` is the wildcard under which a
//! fallback handler for every method is registered.

use vstd::prelude::*;
use vstd::string::*;

verus! {

/// An HTTP request method, held as its token.
#[derive(Debug)]
pub struct Method {
    pub name: String,
}

impl View for Method {
    type V = Seq<char>;

    open spec fn view(&self) -> Seq<char> {
        self.name@
    }
}

impl Clone for Method {
    fn clone(&self) -> (r: Self)
        ensures
            r@ == self@,
    {
        Method { name: self.name.clone() }
    }
}

impl PartialEq for Method {
    fn eq(&self, other: &Method) -> (r: bool) {
        self.name == other.name
    }
}

impl Eq for Method {

}

impl vstd::std_specs::cmp::PartialEqSpecImpl for Method {
    open spec fn obeys_eq_spec() -> bool {
        true
    }

    open spec fn eq_spec(&self, other: &Method) -> bool {
        self.name@ == other.name@
    }
}

/// The token under which fallback handlers are registered.
pub open spec fn all_token() -> Seq<char> {
    "*******"@
}

impl Method {
    /// The method with the given token.
    pub fn new(name: &str) -> (r: Method)
        ensures
            r@ == name@,
    {
        Method { name: String::from_str(name) }
    }

    /// The token of this method.
    pub fn as_str(&self) -> (r: &str)
        ensures
            r@ == self@,
    {
        self.name.as_str()
    }

    /// Whether two methods have the same token.
    pub fn same(&self, other: &Method) -> (r: bool)
        ensures
            r == (self@ == other@),
    {
        self.name == other.name
    }

    pub fn get() -> (r: Method)
        ensures
            r@ == "GET"@,
    {
        Method::new("GET")
    }

    pub fn post() -> (r: Method)
        ensures
            r@ == "POST"@,
    {
        Method::new("POST")
    }

    pub fn put() -> (r: Method)
        ensures
            r@ == "PUT"@,
    {
        Method::new("PUT")
    }

    pub fn delete() -> (r: Method)
        ensures
            r@ == "DELETE"@,
    {
        Method::new("DELETE")
    }

    pub fn head() -> (r: Method)
        ensures
            r@ == "HEAD"@,
    {
        Method::new("HEAD")
    }

    pub fn options() -> (r: Method)
        ensures
            r@ == "OPTIONS"@,
    {
        Method::new("OPTIONS")
    }

    pub fn connect() -> (r: Method)
        ensures
            r@ == "CONNECT"@,
    {
        Method::new("CONNECT")
    }

    pub fn patch() -> (r: Method)
        ensures
            r@ == "PATCH"@,
    {
        Method::new("PATCH")
    }

    pub fn trace() -> (r: Method)
        ensures
            r@ == "TRACE"@,
    {
        Method::new("TRACE")
    }

    /// Whether this is the GET method.
    pub fn is_get(&self) -> (r: bool)
        ensures
            r == (self@ == "GET"@),
    {
        let g = Method::get();
        self.same(&g)
    }

    /// Whether this is the HEAD method.
    pub fn is_head(&self) -> (r: bool)
        ensures
            r == (self@ == "HEAD"@),
    {
        let h = Method::head();
        self.same(&h)
    }

    /// Whether this is the wildcard method.
    pub fn is_all(&self) -> (r: bool)
        ensures
            r == (self@ == all_token()),
    {
        let a = all();
        self.same(&a)
    }
}

/// The wildcard method: a handler registered under it answers every method
/// that has no handler of its own.
pub fn all() -> (r: Method)
    ensures
        r@ == all_token(),
{
    Method::new("*******")
}

/// GET, HEAD and the wildcard are three different methods.
pub proof fn lemma_method_tokens_distinct()
    ensures
        "GET"@ != "HEAD"@,
        "GET"@ != all_token(),
        "HEAD"@ != all_token(),
{
    reveal_strlit("GET");
    reveal_strlit("HEAD");
    reveal_strlit("*******");
    assert("GET"@.len() == 3);
    assert("HEAD"@.len() == 4);
    assert("*******"@.len() == 7);
}

} // verus!
