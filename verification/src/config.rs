//! The settings of an application.

use vstd::prelude::*;
use vstd::string::*;
use crate::bridge::random_bytes;
use crate::middlewares::body_limit::DEFAULT_BODY_LIMIT;
use crate::middlewares::cookie::{CookieKey, MasterKey, KEY_BYTES};
use crate::middlewares::session::{default_session_settings, SessionMiddleware, SessionSettingsView};

verus! {

/// The settings of an application.
#[derive(Debug)]
pub struct Config {
    body_limit: usize,
    proxy_header: String,
    cookie_key: MasterKey,
    session: SessionMiddleware,
}

/// Mathematical model of a [`Config`].
pub struct ConfigView {
    /// The largest body that the server reads, in bytes.
    pub body_limit: usize,
    /// The header that names the client behind a proxy; empty where the
    /// address of the connection is to be taken.
    pub proxy_header: Seq<char>,
    /// The key that signs and encrypts cookies.
    pub cookie_key: Seq<u8>,
    /// The settings of sessions.
    pub session: SessionSettingsView,
}

impl View for Config {
    type V = ConfigView;

    closed spec fn view(&self) -> ConfigView {
        ConfigView {
            body_limit: self.body_limit,
            proxy_header: self.proxy_header@,
            cookie_key: self.cookie_key@,
            session: self.session@,
        }
    }
}

impl Config {
    /// The key is long enough.
    pub closed spec fn wf(&self) -> bool {
        self.cookie_key.wf()
    }

    /// The default settings: bodies up to four mebibytes, no proxy header,
    /// the default session settings, and a key of random bytes.
    pub fn new() -> (r: Self)
        ensures
            r.wf(),
            r@.body_limit == DEFAULT_BODY_LIMIT,
            r@.proxy_header == Seq::<char>::empty(),
            r@.cookie_key.len() == KEY_BYTES,
            r@.session == default_session_settings(),
    {
        let key = CookieKey::Bytes(random_bytes(KEY_BYTES)).into_cookie_key();
        Config {
            body_limit: DEFAULT_BODY_LIMIT,
            proxy_header: String::new(),
            cookie_key: key,
            session: SessionMiddleware::new(),
        }
    }

    /// Sets the largest body that the server reads.
    pub fn body_limit(self, limit: usize) -> (r: Self)
        ensures
            r@ == (ConfigView { body_limit: limit, ..self@ }),
            self.wf() ==> r.wf(),
    {
        let mut r = self;
        r.body_limit = limit;
        r
    }

    /// Sets the header that names the client behind a proxy.
    pub fn proxy_header(self, header: &str) -> (r: Self)
        ensures
            r@ == (ConfigView { proxy_header: header@, ..self@ }),
            self.wf() ==> r.wf(),
    {
        let mut r = self;
        r.proxy_header = String::from_str(header);
        r
    }

    /// Sets the key that signs and encrypts cookies.
    pub fn cookie_key(self, key: Vec<u8>) -> (r: Self)
        requires
            key.len() >= KEY_BYTES,
        ensures
            r@ == (ConfigView { cookie_key: key@, ..self@ }),
            r.wf(),
    {
        let mut r = self;
        r.cookie_key = CookieKey::Bytes(key).into_cookie_key();
        r
    }

    /// Sets the settings of sessions.
    pub fn session(self, config: SessionMiddleware) -> (r: Self)
        ensures
            r@ == (ConfigView { session: config@, ..self@ }),
            self.wf() ==> r.wf(),
    {
        let mut r = self;
        r.session = config;
        r
    }

    /// The largest body that the server reads.
    pub fn max_body(&self) -> (r: usize)
        ensures
            r == self@.body_limit,
    {
        self.body_limit
    }

    /// The header that names the client behind a proxy.
    pub fn proxy(&self) -> (r: &str)
        ensures
            r@ == self@.proxy_header,
    {
        self.proxy_header.as_str()
    }

    /// The key that signs and encrypts cookies.
    pub fn key(&self) -> (r: &MasterKey)
        ensures
            r@ == self@.cookie_key,
    {
        &self.cookie_key
    }

    /// The settings of sessions.
    pub fn session_settings(&self) -> (r: &SessionMiddleware)
        ensures
            r@ == self@.session,
    {
        &self.session
    }
}

} // verus!
