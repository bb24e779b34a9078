//! Protection against forged requests: a token is kept with the client,
//! and every request with an unsafe method must send it back in a header.

use vstd::prelude::*;
use vstd::string::*;
use crate::bridge::{bytes_equal, random_bytes};
use crate::method::Method;
use crate::middlewares::cookie::{CookieOptions, CookieOptionsView, CookieType, SameSite};
use crate::text::{hex, hex_string};

verus! {

/// Where the token is kept.
#[derive(Clone, Copy, Debug, PartialEq, Eq, Structural)]
pub enum CsrfStorage {
    Cookie,
    Session,
}

/// How many random bytes make a token.
pub const TOKEN_BYTES: usize = 32;

/// The status of a request that is refused.
pub const FORBIDDEN: u16 = 403;

/// The name of the header in which the token comes back.
pub fn csrf_header() -> (r: &'static str)
    ensures
        r@ == "X-CSRF-Token"@,
{
    "X-CSRF-Token"
}

/// The settings of the protection.
#[derive(Debug)]
pub struct CsrfMiddleware {
    storage: CsrfStorage,
    key_name: String,
    safe_methods: Vec<Method>,
    cookie_type: CookieType,
    cookie_options: CookieOptions,
}

/// Mathematical model of a [`CsrfMiddleware`].
pub struct CsrfView {
    pub storage: CsrfStorage,
    pub key_name: Seq<char>,
    pub safe_methods: Seq<Seq<char>>,
    pub cookie_type: CookieType,
    pub cookie_options: CookieOptionsView,
}

/// The tokens of a list of methods, in order.
pub open spec fn method_views(s: Seq<Method>) -> Seq<Seq<char>> {
    s.map_values(|m: Method| m@)
}

/// The settings of a new middleware: the token is kept in a signed cookie
/// named `csrf_token`, for all paths, hidden from scripts, with
/// `SameSite=Strict`; GET, HEAD, OPTIONS and TRACE need no token.
pub open spec fn default_csrf_settings() -> CsrfView {
    CsrfView {
        storage: CsrfStorage::Cookie,
        key_name: "csrf_token"@,
        safe_methods: seq!["GET"@, "HEAD"@, "OPTIONS"@, "TRACE"@],
        cookie_type: CookieType::Signed,
        cookie_options: CookieOptionsView {
            path: Some("/"@),
            domain: None,
            secure: None,
            http_only: Some(true),
            same_site: Some(SameSite::Strict),
            max_age: None,
            expires: None,
        },
    }
}

/// What the middleware decides for one request.
#[derive(Debug)]
pub struct CsrfOutcome {
    /// The token of the client.
    pub token: String,
    /// Whether the token is new and has yet to be stored.
    pub fresh: bool,
    /// Whether the chain may go on; else the request is refused.
    pub allowed: bool,
}

/// Whether a request may go on: its method is safe, or it sent a text
/// with the bytes of the token.
pub open spec fn csrf_allows(
    safe_methods: Seq<Seq<char>>,
    method: Seq<char>,
    submitted: Option<Seq<char>>,
    token: Seq<char>,
) -> bool {
    safe_methods.contains(method) || (submitted matches Some(s) && vstd::utf8::encode_utf8(s)
        == vstd::utf8::encode_utf8(token))
}

/// The model of an optional text.
pub open spec fn submitted_view(s: Option<&str>) -> Option<Seq<char>> {
    match s {
        Some(s) => Some(s@),
        None => None,
    }
}

impl View for CsrfMiddleware {
    type V = CsrfView;

    closed spec fn view(&self) -> CsrfView {
        CsrfView {
            storage: self.storage,
            key_name: self.key_name@,
            safe_methods: method_views(self.safe_methods@),
            cookie_type: self.cookie_type,
            cookie_options: self.cookie_options@,
        }
    }
}

impl CsrfMiddleware {
    /// The default settings.
    pub fn new() -> (r: Self)
        ensures
            r@ == default_csrf_settings(),
    {
        let mut safe: Vec<Method> = Vec::new();
        safe.push(Method::get());
        safe.push(Method::head());
        safe.push(Method::options());
        safe.push(Method::trace());
        assert(method_views(safe@) =~= seq!["GET"@, "HEAD"@, "OPTIONS"@, "TRACE"@]);
        CsrfMiddleware {
            storage: CsrfStorage::Cookie,
            key_name: String::from_str("csrf_token"),
            safe_methods: safe,
            cookie_type: CookieType::Signed,
            cookie_options: CookieOptions::new().path("/").http_only(true).same_site(
                SameSite::Strict,
            ),
        }
    }

    /// Sets where the token is kept.
    pub fn storage(self, storage: CsrfStorage) -> (r: Self)
        ensures
            r@ == (CsrfView { storage, ..self@ }),
    {
        let mut r = self;
        r.storage = storage;
        r
    }

    /// Sets the name under which the token is kept.
    pub fn key_name(self, name: &str) -> (r: Self)
        ensures
            r@ == (CsrfView { key_name: name@, ..self@ }),
    {
        let mut r = self;
        r.key_name = String::from_str(name);
        r
    }

    /// Sets the methods that need no token.
    pub fn safe_methods(self, methods: Vec<Method>) -> (r: Self)
        ensures
            r@ == (CsrfView { safe_methods: method_views(methods@), ..self@ }),
    {
        let mut r = self;
        r.safe_methods = methods;
        r
    }

    /// Sets how the cookie of the token is protected; it must be
    /// protected.
    pub fn cookie_type(self, cookie_type: CookieType) -> (r: Self)
        requires
            cookie_type != CookieType::Plain,
        ensures
            r@ == (CsrfView { cookie_type, ..self@ }),
    {
        let mut r = self;
        r.cookie_type = cookie_type;
        r
    }

    /// Sets the attributes of the cookie of the token.
    pub fn cookie_options(self, options: CookieOptions) -> (r: Self)
        ensures
            r@ == (CsrfView { cookie_options: options@, ..self@ }),
    {
        let mut r = self;
        r.cookie_options = options;
        r
    }

    /// Where the token is kept.
    pub fn kept_in(&self) -> (r: CsrfStorage)
        ensures
            r == self@.storage,
    {
        self.storage
    }

    /// The name under which the token is kept.
    pub fn name(&self) -> (r: &str)
        ensures
            r@ == self@.key_name,
    {
        self.key_name.as_str()
    }

    /// How the cookie of the token is protected.
    pub fn protection(&self) -> (r: CookieType)
        ensures
            r == self@.cookie_type,
    {
        self.cookie_type
    }

    /// The attributes of the cookie of the token.
    pub fn options(&self) -> (r: CookieOptions)
        ensures
            r@ == self@.cookie_options,
    {
        self.cookie_options.clone()
    }

    /// Whether requests with `method` need no token.
    pub fn is_safe(&self, method: &Method) -> (r: bool)
        ensures
            r == self@.safe_methods.contains(method@),
    {
        let mut i: usize = 0;
        while i < self.safe_methods.len()
            invariant
                i <= self.safe_methods.len(),
                forall|j: int| 0 <= j < i ==> self@.safe_methods[j] != method@,
            decreases self.safe_methods.len() - i,
        {
            if self.safe_methods[i].same(method) {
                assert(self@.safe_methods[i as int] == method@);
                return true;
            }
            i = i + 1;
        }
        false
    }

    /// Decides one request: `stored` is the token that the client has, if
    /// any, `fresh` a new token for a client that has none, `submitted`
    /// what the request sent in the header.
    pub fn decide(
        &self,
        method: &Method,
        stored: Option<String>,
        fresh: String,
        submitted: Option<&str>,
    ) -> (r: CsrfOutcome)
        ensures
            r.token@ == match stored {
                Some(t) => t@,
                None => fresh@,
            },
            r.fresh == (stored is None),
            r.allowed == csrf_allows(
                self@.safe_methods,
                method@,
                submitted_view(submitted),
                r.token@,
            ),
    {
        let is_fresh = stored.is_none();
        let token = match stored {
            Some(t) => t,
            None => fresh,
        };
        let allowed = if self.is_safe(method) {
            true
        } else {
            match submitted {
                Some(s) => bytes_equal(s.as_bytes(), token.as_str().as_bytes()),
                None => false,
            }
        };
        CsrfOutcome { token, fresh: is_fresh, allowed }
    }
}

/// The text of a token made of `bytes`.
pub fn token_text(bytes: &Vec<u8>) -> (r: String)
    ensures
        r@ == hex(bytes@),
{
    hex_string(bytes)
}

/// A new token: the hexadecimal digits of random bytes.
pub fn generate_token() -> (r: String)
    ensures
        exists|bytes: Seq<u8>| bytes.len() == TOKEN_BYTES && r@ == hex(bytes),
{
    let bytes = random_bytes(TOKEN_BYTES);
    token_text(&bytes)
}

} // verus!
