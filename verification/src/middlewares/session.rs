//! Sessions: named byte strings with a flag that tells whether anything
//! was changed, the settings of the session cookie, and what is to be done
//! with the session when the chain has run.

use vstd::prelude::*;
use vstd::string::*;
use crate::any_map::{assoc_map, assoc_wf, key_views, lemma_assoc_push, AnyMap};
use crate::bridge::{base64_url, base64_url_encode, random_bytes};
use crate::middlewares::cookie::{CookieOptions, CookieOptionsView, CookieType, SameSite};
use crate::status_error::StatusError;

verus! {

/// The data of one session.
#[derive(Debug)]
pub struct SessionStore {
    data: AnyMap<Vec<u8>>,
    modified: bool,
}

/// Mathematical model of a [`SessionStore`].
pub struct SessionView {
    /// The serialised value of each key.
    pub data: Map<Seq<char>, Seq<u8>>,
    /// Whether the session was written to since it was loaded.
    pub modified: bool,
}

/// Why a session value could not be read.
#[derive(Debug)]
pub enum SessionError {
    /// No value under that key.
    NotFound(String),
    /// The bytes are not a value of the expected type; `custom` where the
    /// type itself refused them.
    Deserialize { custom: bool },
}

/// The status and message that a session error becomes.
pub open spec fn session_error_status(e: SessionError) -> (u16, Seq<char>) {
    match e {
        SessionError::NotFound(key) => (400u16, "Session key not found: "@ + key@),
        SessionError::Deserialize { custom } => if custom {
            (422u16, "Failed to deserialize session value into expected type"@)
        } else {
            (400u16, "Invalid session data"@)
        },
    }
}

impl SessionError {
    /// The response that stands for this error.
    pub fn into_status(self) -> (r: StatusError)
        ensures
            r@ == session_error_status(self),
    {
        match self {
            SessionError::NotFound(key) => {
                let text = String::from_str("Session key not found: ").concat(key.as_str());
                StatusError::bad_request().brief(text.as_str())
            },
            SessionError::Deserialize { custom } => {
                if custom {
                    StatusError::unprocessable_entity().brief(
                        "Failed to deserialize session value into expected type",
                    )
                } else {
                    StatusError::bad_request().brief("Invalid session data")
                }
            },
        }
    }
}

/// The data that a list of pairs stands for: of two values for one key
/// the later one.
pub open spec fn pairs_map(pairs: Seq<(Seq<char>, Seq<u8>)>) -> Map<Seq<char>, Seq<u8>>
    decreases pairs.len(),
{
    if pairs.len() == 0 {
        Map::empty()
    } else {
        pairs_map(pairs.drop_last()).insert(pairs.last().0, pairs.last().1)
    }
}

/// The models of a list of pairs, in order.
pub open spec fn pair_views(pairs: Seq<(String, Vec<u8>)>) -> Seq<(Seq<char>, Seq<u8>)> {
    pairs.map_values(|p: (String, Vec<u8>)| (p.0@, p.1@))
}

impl View for SessionStore {
    type V = SessionView;

    closed spec fn view(&self) -> SessionView {
        SessionView { data: self.data@.map_values(|b: Vec<u8>| b@), modified: self.modified }
    }
}

impl SessionStore {
    /// No key is held twice.
    pub closed spec fn wf(&self) -> bool {
        self.data.wf()
    }

    /// An empty session that was not written to.
    pub fn new() -> (r: Self)
        ensures
            r.wf(),
            r@ == (SessionView { data: Map::empty(), modified: false }),
    {
        let r = SessionStore { data: AnyMap::new(), modified: false };
        assert(r@.data =~= Map::<Seq<char>, Seq<u8>>::empty());
        r
    }

    /// The session that was saved as `pairs`; it counts as not written to.
    pub fn load(pairs: Vec<(String, Vec<u8>)>) -> (r: Self)
        ensures
            r.wf(),
            r@ == (SessionView { data: pairs_map(pair_views(pairs@)), modified: false }),
    {
        let mut r = SessionStore::new();
        let ghost all = pair_views(pairs@);
        for pair in it: pairs.into_iter()
            invariant
                it.seq() == pairs@,
                all == pair_views(pairs@),
                r.wf(),
                !r@.modified,
                r@.data == pairs_map(all.take(it.index() as int)),
        {
            let ghost i = it.index() as int;
            assert(all.take(i + 1).drop_last() =~= all.take(i));
            let (key, value) = pair;
            r.data.set(key.as_str(), value);
        }
        assert(all.take(all.len() as int) =~= all);
        r
    }

    /// The pairs of the session, for saving.
    pub fn pairs(&self) -> (r: Vec<(String, Vec<u8>)>)
        requires
            self.wf(),
        ensures
            pairs_map(pair_views(r@)) == self@.data,
            r@.len() == self@.data.len(),
    {
        let keys = self.data.keys();
        let vals = self.data.values();
        let mut r: Vec<(String, Vec<u8>)> = Vec::new();
        let mut i: usize = 0;
        proof {
            self.data.lemma_view();
        }
        let ghost ks = self.data.key_seq();
        let ghost vs = self.data.value_seq();
        while i < keys.len()
            invariant
                i <= keys.len(),
                keys.len() == vals.len(),
                key_views(keys@) == ks,
                vals@ == vs,
                r.len() == i,
                forall|j: int|
                    0 <= j < i ==> (#[trigger] pair_views(r@)[j]) == (ks[j], vs[j]@),
            decreases keys.len() - i,
        {
            let ghost before = pair_views(r@);
            let value = copy_bytes(&vals[i]);
            r.push((keys[i].clone(), value));
            assert(pair_views(r@) =~= before.push((ks[i as int], vs[i as int]@)));
            i = i + 1;
        }
        proof {
            lemma_pairs_of_distinct_keys(pair_views(r@), ks, vs);
            assert(self@.data =~= assoc_map(ks, vs).map_values(|b: Vec<u8>| b@));
            assert(pairs_map(pair_views(r@)) =~= self@.data);
            assert(self@.data.dom() =~= self.data@.dom());
        }
        r
    }

    /// The serialised value stored under `key`.
    pub fn get(&self, key: &str) -> (r: Result<&Vec<u8>, SessionError>)
        requires
            self.wf(),
        ensures
            match r {
                Ok(bytes) => self@.data.contains_key(key@) && bytes@ == self@.data[key@],
                Err(e) => !self@.data.contains_key(key@) && (e matches SessionError::NotFound(k)
                    && k@ == key@),
            },
    {
        match self.data.get(key) {
            Some(bytes) => Ok(bytes),
            None => Err(SessionError::NotFound(String::from_str(key))),
        }
    }

    /// Stores the serialised value `value` under `key` and marks the
    /// session as written to.
    pub fn set(&mut self, key: &str, value: Vec<u8>)
        requires
            old(self).wf(),
        ensures
            final(self).wf(),
            final(self)@ == (SessionView {
                data: old(self)@.data.insert(key@, value@),
                modified: true,
            }),
    {
        let ghost before = self.data@;
        self.data.set(key, value);
        self.modified = true;
        assert(self@.data =~= before.map_values(|b: Vec<u8>| b@).insert(key@, value@));
    }

    /// Takes the value under `key` out and marks the session as written
    /// to, whether there was a value or not.  Tells whether there was one.
    pub fn remove(&mut self, key: &str) -> (r: bool)
        requires
            old(self).wf(),
        ensures
            final(self).wf(),
            r == old(self)@.data.contains_key(key@),
            final(self)@ == (SessionView {
                data: old(self)@.data.remove(key@),
                modified: true,
            }),
    {
        let ghost before = self.data@;
        self.modified = true;
        let removed = self.data.remove(key);
        assert(self@.data =~= before.map_values(|b: Vec<u8>| b@).remove(key@));
        removed.is_some()
    }

    /// Takes all values out and marks the session as written to.
    pub fn clear(&mut self)
        requires
            old(self).wf(),
        ensures
            final(self).wf(),
            final(self)@ == (SessionView { data: Map::empty(), modified: true }),
    {
        self.data.clear();
        self.modified = true;
        assert(self@.data =~= Map::<Seq<char>, Seq<u8>>::empty());
    }

    /// Whether the session was written to.
    pub fn is_modified(&self) -> (r: bool)
        ensures
            r == self@.modified,
    {
        self.modified
    }

    /// Whether a value is stored under `key`.
    pub fn contains(&self, key: &str) -> (r: bool)
        requires
            self.wf(),
        ensures
            r == self@.data.contains_key(key@),
    {
        self.data.contains_key(key)
    }

    /// The keys of the session.
    pub fn keys(&self) -> (r: Vec<String>)
        requires
            self.wf(),
        ensures
            key_views(r@).to_set() == self@.data.dom(),
            key_views(r@).no_duplicates(),
    {
        let r = self.data.keys();
        r
    }

    /// Takes the session out and leaves an empty one that was not written
    /// to.
    pub fn take(&mut self) -> (r: SessionStore)
        requires
            old(self).wf(),
        ensures
            r.wf(),
            r@ == old(self)@,
            final(self).wf(),
            final(self)@ == (SessionView { data: Map::empty(), modified: false }),
    {
        let mut out = SessionStore::new();
        std::mem::swap(self, &mut out);
        out
    }
}

/// Copies a byte string.
pub fn copy_bytes(bytes: &Vec<u8>) -> (r: Vec<u8>)
    ensures
        r@ == bytes@,
{
    let mut r: Vec<u8> = Vec::new();
    let mut i: usize = 0;
    while i < bytes.len()
        invariant
            i <= bytes.len(),
            r@ == bytes@.take(i as int),
        decreases bytes.len() - i,
    {
        r.push(bytes[i]);
        i = i + 1;
    }
    r
}

/// Pairs with keys that are all different stand for the map that pairs
/// each key with its value.
pub proof fn lemma_pairs_of_distinct_keys(
    pairs: Seq<(Seq<char>, Seq<u8>)>,
    ks: Seq<Seq<char>>,
    vs: Seq<Vec<u8>>,
)
    requires
        assoc_wf(ks, vs),
        pairs.len() == ks.len(),
        forall|j: int| 0 <= j < pairs.len() ==> (#[trigger] pairs[j]) == (ks[j], vs[j]@),
    ensures
        pairs_map(pairs) == assoc_map(ks, vs).map_values(|b: Vec<u8>| b@),
    decreases pairs.len(),
{
    let target = assoc_map(ks, vs).map_values(|b: Vec<u8>| b@);
    if pairs.len() == 0 {
        assert(pairs_map(pairs) =~= target);
    } else {
        let n = pairs.len() - 1;
        let ks0 = ks.drop_last();
        let vs0 = vs.drop_last();
        assert(ks0.no_duplicates()) by {
            assert forall|a: int, b: int|
                0 <= a < ks0.len() && 0 <= b < ks0.len() && a != b implies ks0[a] != ks0[b] by {
                assert(ks[a] != ks[b]);
            }
        }
        assert forall|j: int| 0 <= j < n implies (#[trigger] pairs.drop_last()[j]) == (
            ks0[j],
            vs0[j]@,
        ) by {
            assert(pairs[j] == (ks[j], vs[j]@));
        }
        lemma_pairs_of_distinct_keys(pairs.drop_last(), ks0, vs0);
        assert(!ks0.contains(ks[n])) by {
            if ks0.contains(ks[n]) {
                let a = choose|a: int| 0 <= a < ks0.len() && ks0[a] == ks[n];
                assert(ks[a] != ks[n]);
            }
        }
        assert(ks0.push(ks[n]) =~= ks);
        assert(vs0.push(vs[n]) =~= vs);
        lemma_assoc_push(ks0, vs0, ks[n], vs[n]);
        assert(pairs.last() == (ks[n], vs[n]@));
        assert(pairs_map(pairs) =~= target);
    }
}

/// Session storage that keeps the whole session in the session cookie.
#[derive(Clone, Copy, Debug, PartialEq, Eq, Structural)]
pub struct CookieStorage;

impl CookieStorage {
    /// The session itself travels in the cookie, not an identifier of it.
    pub fn is_inline(&self) -> (r: bool)
        ensures
            r,
    {
        true
    }
}

/// How many random bytes make a session identifier.
pub const SESSION_ID_BYTES: usize = 18;

/// The text of a session identifier made of `bytes`.
pub fn session_id_text(bytes: &Vec<u8>) -> (r: String)
    requires
        bytes.len() == SESSION_ID_BYTES,
    ensures
        r@ == base64_url(bytes@),
{
    base64_url_encode(bytes.as_slice())
}

/// A fresh session identifier: the URL-safe base64 text of random bytes.
pub fn generate_id() -> (r: String)
    ensures
        exists|bytes: Seq<u8>| bytes.len() == SESSION_ID_BYTES && r@ == base64_url(bytes),
{
    let bytes = random_bytes(SESSION_ID_BYTES);
    session_id_text(&bytes)
}

/// The identifier under which a session is saved: the one that came with
/// the request, or else the fresh one.
pub fn saved_id(sent: Option<String>, fresh: String) -> (r: String)
    ensures
        r@ == match sent {
            Some(id) => id@,
            None => fresh@,
        },
{
    match sent {
        Some(id) => id,
        None => fresh,
    }
}

/// The settings of the session cookie.
#[derive(Debug)]
pub struct SessionMiddleware {
    cookie_name: String,
    cookie_type: CookieType,
    cookie_options: CookieOptions,
}

/// Mathematical model of a [`SessionMiddleware`].
pub struct SessionSettingsView {
    pub cookie_name: Seq<char>,
    pub cookie_type: CookieType,
    pub cookie_options: CookieOptionsView,
}

/// The settings of a new session middleware: a signed cookie named
/// `maw.session`, for all paths, hidden from scripts, for secure
/// connections only, with `SameSite=Lax`.
pub open spec fn default_session_settings() -> SessionSettingsView {
    SessionSettingsView {
        cookie_name: "maw.session"@,
        cookie_type: CookieType::Signed,
        cookie_options: CookieOptionsView {
            path: Some("/"@),
            domain: None,
            secure: Some(true),
            http_only: Some(true),
            same_site: Some(SameSite::Lax),
            max_age: None,
            expires: None,
        },
    }
}

/// What is to be done with the session when the chain has run.
#[derive(Debug)]
pub enum SessionAction {
    /// The session was not written to: nothing.
    Keep,
    /// The session is to be saved and its cookie to be set.
    Save {
        session: SessionStore,
        cookie_name: String,
        cookie_type: CookieType,
        options: CookieOptions,
    },
}

impl View for SessionMiddleware {
    type V = SessionSettingsView;

    closed spec fn view(&self) -> SessionSettingsView {
        SessionSettingsView {
            cookie_name: self.cookie_name@,
            cookie_type: self.cookie_type,
            cookie_options: self.cookie_options@,
        }
    }
}

impl SessionMiddleware {
    /// The default settings.
    pub fn new() -> (r: Self)
        ensures
            r@ == default_session_settings(),
    {
        SessionMiddleware {
            cookie_name: String::from_str("maw.session"),
            cookie_type: CookieType::Signed,
            cookie_options: CookieOptions::new().path("/").http_only(true).secure(true).same_site(
                SameSite::Lax,
            ),
        }
    }

    /// Sets the name of the session cookie.
    pub fn cookie_name(self, name: &str) -> (r: Self)
        ensures
            r@ == (SessionSettingsView { cookie_name: name@, ..self@ }),
    {
        let mut r = self;
        r.cookie_name = String::from_str(name);
        r
    }

    /// Sets how the session cookie is protected; it must be protected.
    pub fn cookie_type(self, cookie_type: CookieType) -> (r: Self)
        requires
            cookie_type != CookieType::Plain,
        ensures
            r@ == (SessionSettingsView { cookie_type, ..self@ }),
    {
        let mut r = self;
        r.cookie_type = cookie_type;
        r
    }

    /// Sets the attributes of the session cookie.
    pub fn cookie_options(self, options: CookieOptions) -> (r: Self)
        ensures
            r@ == (SessionSettingsView { cookie_options: options@, ..self@ }),
    {
        let mut r = self;
        r.cookie_options = options;
        r
    }

    /// The name of the session cookie.
    pub fn name(&self) -> (r: &str)
        ensures
            r@ == self@.cookie_name,
    {
        self.cookie_name.as_str()
    }

    /// How the session cookie is protected.
    pub fn protection(&self) -> (r: CookieType)
        ensures
            r == self@.cookie_type,
    {
        self.cookie_type
    }

    /// What to do when the chain has run: a session that was written to is
    /// taken out of its place, which is left empty, and is to be saved
    /// under the settings of the middleware; any other session stays.
    pub fn after_next(&self, session: &mut SessionStore) -> (r: SessionAction)
        requires
            old(session).wf(),
        ensures
            final(session).wf(),
            match r {
                SessionAction::Keep => !old(session)@.modified && final(session)@ == old(
                    session,
                )@,
                SessionAction::Save { session: taken, cookie_name, cookie_type, options } => old(
                    session,
                )@.modified && taken.wf() && taken@ == old(session)@ && final(session)@ == (
                SessionView { data: Map::empty(), modified: false }) && cookie_name@
                    == self@.cookie_name && cookie_type == self@.cookie_type && options@
                    == self@.cookie_options,
            },
    {
        if session.is_modified() {
            let taken = session.take();
            SessionAction::Save {
                session: taken,
                cookie_name: self.cookie_name.clone(),
                cookie_type: self.cookie_type,
                options: self.cookie_options.clone(),
            }
        } else {
            SessionAction::Keep
        }
    }
}

} // verus!
