//! Cookies: the options of a cookie, the key that signs and encrypts, the
//! text form of a value, and the errors of reading one.

use vstd::prelude::*;
use vstd::string::*;
use crate::bridge::{
    base64_decode, base64_encode, base64_standard, base64_standard_decoded, max_encodable,
};
use crate::status_error::StatusError;
use crate::text::{split_trimmed, split_trimmed_spec};

verus! {

/// How the value of a cookie is protected.
#[derive(Clone, Copy, Debug, PartialEq, Eq, Structural)]
pub enum CookieType {
    Plain,
    Signed,
    Encrypted,
}

/// The `SameSite` attribute of a cookie.
#[derive(Clone, Copy, Debug, PartialEq, Eq, Structural)]
pub enum SameSite {
    Strict,
    Lax,
    /// The attribute `SameSite=None`: the cookie goes with every request.
    Unrestricted,
}

/// The attributes that the caller chose for a cookie; what is `None` is
/// left to the defaults.
#[derive(Debug)]
pub struct CookieOptions {
    path: Option<String>,
    domain: Option<String>,
    secure: Option<bool>,
    http_only: Option<bool>,
    same_site: Option<SameSite>,
    max_age: Option<i64>,
    expires: Option<i64>,
}

/// Mathematical model of [`CookieOptions`].
pub struct CookieOptionsView {
    pub path: Option<Seq<char>>,
    pub domain: Option<Seq<char>>,
    pub secure: Option<bool>,
    pub http_only: Option<bool>,
    pub same_site: Option<SameSite>,
    /// Seconds.
    pub max_age: Option<i64>,
    /// Seconds since the epoch.
    pub expires: Option<i64>,
}

/// The model of an optional string.
pub open spec fn opt_view(s: Option<String>) -> Option<Seq<char>> {
    match s {
        Some(s) => Some(s@),
        None => None,
    }
}

/// Copies an optional string.
pub fn clone_opt(s: &Option<String>) -> (r: Option<String>)
    ensures
        opt_view(r) == opt_view(*s),
{
    match s {
        Some(s) => Some(s.clone()),
        None => None,
    }
}

impl View for CookieOptions {
    type V = CookieOptionsView;

    closed spec fn view(&self) -> CookieOptionsView {
        CookieOptionsView {
            path: opt_view(self.path),
            domain: opt_view(self.domain),
            secure: self.secure,
            http_only: self.http_only,
            same_site: self.same_site,
            max_age: self.max_age,
            expires: self.expires,
        }
    }
}

/// The options with nothing chosen.
pub open spec fn no_options() -> CookieOptionsView {
    CookieOptionsView {
        path: None,
        domain: None,
        secure: None,
        http_only: None,
        same_site: None,
        max_age: None,
        expires: None,
    }
}

impl Clone for CookieOptions {
    fn clone(&self) -> (r: Self)
        ensures
            r@ == self@,
    {
        CookieOptions {
            path: clone_opt(&self.path),
            domain: clone_opt(&self.domain),
            secure: self.secure,
            http_only: self.http_only,
            same_site: self.same_site,
            max_age: self.max_age,
            expires: self.expires,
        }
    }
}

impl CookieOptions {
    /// Options with nothing chosen.
    pub fn new() -> (r: Self)
        ensures
            r@ == no_options(),
    {
        CookieOptions {
            path: None,
            domain: None,
            secure: None,
            http_only: None,
            same_site: None,
            max_age: None,
            expires: None,
        }
    }

    /// Chooses the path; without a choice it is `/`.
    pub fn path(self, path: &str) -> (r: Self)
        ensures
            r@ == (CookieOptionsView { path: Some(path@), ..self@ }),
    {
        let mut r = self;
        r.path = Some(String::from_str(path));
        r
    }

    /// Chooses the domain.
    pub fn domain(self, domain: &str) -> (r: Self)
        ensures
            r@ == (CookieOptionsView { domain: Some(domain@), ..self@ }),
    {
        let mut r = self;
        r.domain = Some(String::from_str(domain));
        r
    }

    /// Chooses whether the cookie is sent over secure connections only.
    pub fn secure(self, secure: bool) -> (r: Self)
        ensures
            r@ == (CookieOptionsView { secure: Some(secure), ..self@ }),
    {
        let mut r = self;
        r.secure = Some(secure);
        r
    }

    /// Chooses whether the cookie is hidden from scripts.
    pub fn http_only(self, http_only: bool) -> (r: Self)
        ensures
            r@ == (CookieOptionsView { http_only: Some(http_only), ..self@ }),
    {
        let mut r = self;
        r.http_only = Some(http_only);
        r
    }

    /// Chooses the `SameSite` attribute.
    pub fn same_site(self, same_site: SameSite) -> (r: Self)
        ensures
            r@ == (CookieOptionsView { same_site: Some(same_site), ..self@ }),
    {
        let mut r = self;
        r.same_site = Some(same_site);
        r
    }

    /// Chooses the lifetime, in seconds.
    pub fn max_age(self, max_age: i64) -> (r: Self)
        ensures
            r@ == (CookieOptionsView { max_age: Some(max_age), ..self@ }),
    {
        let mut r = self;
        r.max_age = Some(max_age);
        r
    }

    /// Chooses the time of expiry, in seconds since the epoch.
    pub fn expires(self, expires: i64) -> (r: Self)
        ensures
            r@ == (CookieOptionsView { expires: Some(expires), ..self@ }),
    {
        let mut r = self;
        r.expires = Some(expires);
        r
    }
}

/// A cookie as it is handed to the jar.
#[derive(Debug)]
pub struct SetCookie {
    pub name: String,
    pub value: String,
    pub path: Option<String>,
    pub domain: Option<String>,
    pub secure: Option<bool>,
    pub http_only: Option<bool>,
    pub same_site: Option<SameSite>,
    pub max_age: Option<i64>,
    pub expires: Option<i64>,
}

/// Mathematical model of a [`SetCookie`].
pub struct SetCookieView {
    pub name: Seq<char>,
    pub value: Seq<char>,
    pub attributes: CookieOptionsView,
}

impl View for SetCookie {
    type V = SetCookieView;

    open spec fn view(&self) -> SetCookieView {
        SetCookieView {
            name: self.name@,
            value: self.value@,
            attributes: CookieOptionsView {
                path: opt_view(self.path),
                domain: opt_view(self.domain),
                secure: self.secure,
                http_only: self.http_only,
                same_site: self.same_site,
                max_age: self.max_age,
                expires: self.expires,
            },
        }
    }
}

/// The attributes of a cookie made with `options`: those chosen, and the
/// path `/` where none was chosen.
pub open spec fn built_attributes(options: CookieOptionsView) -> CookieOptionsView {
    CookieOptionsView {
        path: Some(
            match options.path {
                Some(p) => p,
                None => seq!['/'],
            },
        ),
        ..options
    }
}

/// What a cookie is made of when the caller gave options or gave none.
pub open spec fn cookie_spec(
    name: Seq<char>,
    value: Seq<char>,
    options: Option<CookieOptionsView>,
) -> SetCookieView {
    SetCookieView {
        name,
        value,
        attributes: match options {
            Some(o) => built_attributes(o),
            None => no_options(),
        },
    }
}

/// The model of optional options.
pub open spec fn options_view(o: Option<CookieOptions>) -> Option<CookieOptionsView> {
    match o {
        Some(o) => Some(o@),
        None => None,
    }
}

/// The least number of bytes of a key.
pub const KEY_BYTES: usize = 64;

/// The key that signs and encrypts cookies.
#[derive(Debug)]
pub struct MasterKey {
    bytes: Vec<u8>,
}

impl View for MasterKey {
    type V = Seq<u8>;

    closed spec fn view(&self) -> Seq<u8> {
        self.bytes@
    }
}

impl MasterKey {
    /// A key is long enough.
    pub closed spec fn wf(&self) -> bool {
        self.bytes.len() >= KEY_BYTES
    }

    /// The key made of `bytes`, unless they are too few.
    pub fn try_from_bytes(bytes: Vec<u8>) -> (r: Option<MasterKey>)
        ensures
            match r {
                Some(k) => bytes.len() >= KEY_BYTES && k.wf() && k@ == bytes@,
                None => bytes.len() < KEY_BYTES,
            },
    {
        if bytes.len() >= KEY_BYTES {
            Some(MasterKey { bytes })
        } else {
            None
        }
    }

    /// The bytes of the key.
    pub fn as_bytes(&self) -> (r: &Vec<u8>)
        ensures
            r@ == self@,
    {
        &self.bytes
    }
}

impl Clone for MasterKey {
    fn clone(&self) -> (r: Self)
        ensures
            r@ == self@,
            self.wf() ==> r.wf(),
    {
        let mut bytes: Vec<u8> = Vec::new();
        let mut i: usize = 0;
        while i < self.bytes.len()
            invariant
                i <= self.bytes.len(),
                bytes@ == self.bytes@.take(i as int),
            decreases self.bytes.len() - i,
        {
            bytes.push(self.bytes[i]);
            i = i + 1;
        }
        MasterKey { bytes }
    }
}

/// What a key can be given as.
#[derive(Debug)]
pub enum CookieKey {
    Key(MasterKey),
    Bytes(Vec<u8>),
}

impl CookieKey {
    /// Whether a key can be made of this.
    pub open spec fn is_valid(&self) -> bool {
        match self {
            CookieKey::Key(k) => k.wf(),
            CookieKey::Bytes(b) => b.len() >= KEY_BYTES,
        }
    }

    /// The bytes given.
    pub open spec fn bytes(&self) -> Seq<u8> {
        match self {
            CookieKey::Key(k) => k@,
            CookieKey::Bytes(b) => b@,
        }
    }

    /// Tests whether a key can be made of this.
    pub fn check(&self) -> (r: bool)
        ensures
            r == self.is_valid(),
    {
        match self {
            CookieKey::Key(k) => k.as_bytes().len() >= KEY_BYTES,
            CookieKey::Bytes(b) => b.len() >= KEY_BYTES,
        }
    }

    /// The key.
    pub fn into_cookie_key(self) -> (r: MasterKey)
        requires
            self.is_valid(),
        ensures
            r.wf(),
            r@ == self.bytes(),
    {
        match self {
            CookieKey::Key(k) => k,
            CookieKey::Bytes(b) => {
                match MasterKey::try_from_bytes(b) {
                    Some(k) => k,
                    None => vstd::pervasive::unreached(),
                }
            },
        }
    }
}

/// The model of an optional key.
pub open spec fn key_view(k: Option<MasterKey>) -> Option<Seq<u8>> {
    match k {
        Some(k) => Some(k@),
        None => None,
    }
}

/// The cookie middleware: it holds the key that the stores of its
/// requests get.
#[derive(Debug)]
pub struct CookieMiddleware {
    key: Option<MasterKey>,
}

impl CookieMiddleware {
    /// The key, if one was set.
    pub closed spec fn key_spec(&self) -> Option<Seq<u8>> {
        key_view(self.key)
    }

    /// A middleware without a key.
    pub fn new() -> (r: Self)
        ensures
            r.key_spec() is None,
    {
        CookieMiddleware { key: None }
    }

    /// Sets the key.
    pub fn key(self, key: CookieKey) -> (r: Self)
        requires
            key.is_valid(),
        ensures
            r.key_spec() == Some(key.bytes()),
    {
        CookieMiddleware { key: Some(key.into_cookie_key()) }
    }

    /// The pieces of a `Cookie` header, each of which is to be a cookie:
    /// what stands between the semicolons, without the white space around
    /// it.
    pub fn header_pieces(&self, header: &str) -> (r: Vec<String>)
        ensures
            r@.map_values(|p: String| p@) == split_trimmed_spec(header@, ';'),
    {
        split_trimmed(header, ';')
    }

    /// The store of one request.
    pub fn store(&self) -> (r: CookieStore)
        ensures
            r.key_spec() == self.key_spec(),
    {
        match &self.key {
            Some(k) => CookieStore { key: Some(k.clone()) },
            None => CookieStore { key: None },
        }
    }
}

/// What a request knows of cookies beside the jar: the key.
#[derive(Debug)]
pub struct CookieStore {
    key: Option<MasterKey>,
}

impl CookieStore {
    /// The key, if one was set.
    pub closed spec fn key_spec(&self) -> Option<Seq<u8>> {
        key_view(self.key)
    }

    /// Whether a key was set.
    pub fn has_key(&self) -> (r: bool)
        ensures
            r == (self.key_spec() is Some),
    {
        self.key.is_some()
    }

    /// The key.
    pub fn key(&self) -> (r: &MasterKey)
        requires
            self.key_spec() is Some,
        ensures
            Some(r@) == self.key_spec(),
    {
        match &self.key {
            Some(k) => k,
            None => vstd::pervasive::unreached(),
        }
    }

    /// The cookie `name` with the value `value` and the attributes that
    /// `options` chose; the path is `/` where none was chosen.
    pub fn build_cookie(&self, name: &str, value: &str, options: CookieOptions) -> (r: SetCookie)
        ensures
            r@ == cookie_spec(name@, value@, Some(options@)),
    {
        let path = match options.path {
            Some(p) => p,
            None => {
                let p = String::from_str("/");
                proof {
                    reveal_strlit("/");
                    assert(p@ =~= seq!['/']);
                }
                p
            },
        };
        SetCookie {
            name: String::from_str(name),
            value: String::from_str(value),
            path: Some(path),
            domain: options.domain,
            secure: options.secure,
            http_only: options.http_only,
            same_site: options.same_site,
            max_age: options.max_age,
            expires: options.expires,
        }
    }

    /// The text that stands for the serialised value `bytes` in a cookie.
    pub fn encode(&self, bytes: &Vec<u8>) -> (r: String)
        requires
            bytes.len() <= max_encodable(),
        ensures
            r@ == base64_standard(bytes@),
    {
        base64_encode(bytes.as_slice())
    }

    /// The serialised value of the cookie `name`, where `raw` is the text
    /// that the jar holds for it, if any.
    pub fn decode(&self, name: &str, raw: Option<&str>) -> (r: Result<Vec<u8>, CookieError>)
        ensures
            match r {
                Ok(bytes) => raw matches Some(text) && base64_standard_decoded(text@) == Some(
                    bytes@,
                ),
                Err(CookieError::NotFound(n)) => raw is None && n@ == name@,
                Err(CookieError::Decode) => raw matches Some(text) && base64_standard_decoded(
                    text@,
                ) is None,
                Err(CookieError::Deserialize { .. }) => false,
            },
    {
        match raw {
            None => Err(CookieError::NotFound(String::from_str(name))),
            Some(text) => match base64_decode(text) {
                Some(bytes) => Ok(bytes),
                None => Err(CookieError::Decode),
            },
        }
    }

    /// The cookie to hand to the jar: built with the options where there
    /// are any, bare where there are none.
    pub fn cookie(&self, name: &str, value: &str, options: Option<CookieOptions>) -> (r: SetCookie)
        ensures
            r@ == cookie_spec(name@, value@, options_view(options)),
    {
        match options {
            Some(o) => self.build_cookie(name, value, o),
            None => SetCookie {
                name: String::from_str(name),
                value: String::from_str(value),
                path: None,
                domain: None,
                secure: None,
                http_only: None,
                same_site: None,
                max_age: None,
                expires: None,
            },
        }
    }
}

/// Why a cookie could not be read.
#[derive(Debug)]
pub enum CookieError {
    /// No cookie of that name.
    NotFound(String),
    /// The value is not base64.
    Decode,
    /// The bytes are not a value of the expected type; `custom` where the
    /// type itself refused them.
    Deserialize { custom: bool },
}

/// The status and message that a cookie error becomes.
pub open spec fn cookie_error_status(e: CookieError) -> (u16, Seq<char>) {
    match e {
        CookieError::NotFound(name) => (400u16, "Cookie not found: "@ + name@),
        CookieError::Decode => (400u16, "Invalid cookie encoding"@),
        CookieError::Deserialize { custom } => if custom {
            (422u16, "Failed to deserialize cookie value into expected type"@)
        } else {
            (400u16, "Invalid cookie data"@)
        },
    }
}

impl CookieError {
    /// The response that stands for this error.
    pub fn into_status(self) -> (r: StatusError)
        ensures
            r@ == cookie_error_status(self),
    {
        match self {
            CookieError::NotFound(name) => {
                let text = String::from_str("Cookie not found: ").concat(name.as_str());
                StatusError::bad_request().brief(text.as_str())
            },
            CookieError::Decode => StatusError::bad_request().brief("Invalid cookie encoding"),
            CookieError::Deserialize { custom } => {
                if custom {
                    StatusError::unprocessable_entity().brief(
                        "Failed to deserialize cookie value into expected type",
                    )
                } else {
                    StatusError::bad_request().brief("Invalid cookie data")
                }
            },
        }
    }
}

} // verus!
