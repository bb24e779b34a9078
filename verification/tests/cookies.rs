use maw::config::Config;
use maw::middlewares::body_limit::{effective_limit, BodyLimitMiddleware, DEFAULT_BODY_LIMIT};
use maw::middlewares::cookie::{
    CookieError, CookieKey, CookieMiddleware, CookieOptions, CookieType, MasterKey, SameSite,
    KEY_BYTES,
};
use maw::middlewares::csrf::{
    csrf_header, generate_token, token_text, CsrfMiddleware, CsrfStorage, FORBIDDEN, TOKEN_BYTES,
};
use maw::middlewares::session::{
    generate_id, saved_id, session_id_text, CookieStorage, SessionAction, SessionError,
    SessionMiddleware, SessionStore, SESSION_ID_BYTES,
};
use maw::method::Method;

fn store() -> maw::middlewares::cookie::CookieStore {
    CookieMiddleware::new().store()
}

#[test]
fn a_cookie_without_options_has_no_attributes() {
    let c = store().cookie("sid", "abc", None);
    assert_eq!(c.name, "sid");
    assert_eq!(c.value, "abc");
    assert_eq!(c.path, None);
    assert_eq!(c.domain, None);
    assert_eq!(c.secure, None);
    assert_eq!(c.http_only, None);
    assert_eq!(c.same_site, None);
    assert_eq!(c.max_age, None);
    assert_eq!(c.expires, None);
}

#[test]
fn a_cookie_with_empty_options_gets_the_root_path() {
    let c = store().build_cookie("sid", "abc", CookieOptions::new());
    assert_eq!(c.name, "sid");
    assert_eq!(c.value, "abc");
    assert_eq!(c.path.as_deref(), Some("/"));
    assert_eq!(c.domain, None);
    assert_eq!(c.secure, None);
    assert_eq!(c.http_only, None);
    assert_eq!(c.same_site, None);
    assert_eq!(c.max_age, None);
    assert_eq!(c.expires, None);
    let same = store().cookie("sid", "abc", Some(CookieOptions::new()));
    assert_eq!(same.path.as_deref(), Some("/"));
}

#[test]
fn every_option_reaches_the_cookie() {
    let options = CookieOptions::new()
        .path("/app")
        .domain("example.org")
        .secure(true)
        .http_only(false)
        .same_site(SameSite::Unrestricted)
        .max_age(3600)
        .expires(1_700_000_000);
    let c = store().build_cookie("n", "v", options.clone());
    assert_eq!(c.path.as_deref(), Some("/app"));
    assert_eq!(c.domain.as_deref(), Some("example.org"));
    assert_eq!(c.secure, Some(true));
    assert_eq!(c.http_only, Some(false));
    assert_eq!(c.same_site, Some(SameSite::Unrestricted));
    assert_eq!(c.max_age, Some(3600));
    assert_eq!(c.expires, Some(1_700_000_000));
    let again = store().build_cookie("n", "v", options.secure(false).same_site(SameSite::Strict));
    assert_eq!(again.secure, Some(false));
    assert_eq!(again.same_site, Some(SameSite::Strict));
    assert_eq!(again.path.as_deref(), Some("/app"));
}

#[test]
fn keys_need_64_bytes() {
    assert_eq!(KEY_BYTES, 64);
    assert!(MasterKey::try_from_bytes(vec![1; 63]).is_none());
    assert!(MasterKey::try_from_bytes(Vec::new()).is_none());
    let key = MasterKey::try_from_bytes(vec![7; 64]).unwrap();
    assert_eq!(key.as_bytes(), &vec![7u8; 64]);
    assert_eq!(key.clone().as_bytes(), &vec![7u8; 64]);
    assert!(MasterKey::try_from_bytes(vec![7; 100]).is_some());
    assert!(CookieKey::Bytes(vec![0; 64]).check());
    assert!(!CookieKey::Bytes(vec![0; 10]).check());
    assert!(CookieKey::Key(key).check());
    let made = CookieKey::Bytes((0..80).collect()).into_cookie_key();
    assert_eq!(made.as_bytes(), &(0..80).collect::<Vec<u8>>());
}

#[test]
fn the_store_gets_the_key_of_the_middleware() {
    let none = CookieMiddleware::new().store();
    assert!(!none.has_key());
    let with = CookieMiddleware::new().key(CookieKey::Bytes(vec![9; 64])).store();
    assert!(with.has_key());
    assert_eq!(with.key().as_bytes(), &vec![9u8; 64]);
}

#[test]
fn cookie_values_are_base64() {
    let s = store();
    assert_eq!(s.encode(&b"hello".to_vec()), "aGVsbG8=");
    assert_eq!(s.encode(&Vec::new()), "");
    assert_eq!(s.encode(&vec![0xfb, 0xff]), "+/8=");
    assert_eq!(s.decode("c", Some("aGVsbG8=")).unwrap(), b"hello".to_vec());
    assert_eq!(s.decode("c", Some("")).unwrap(), Vec::<u8>::new());
    let bytes: Vec<u8> = (0..=255).collect();
    assert_eq!(s.decode("c", Some(&s.encode(&bytes))).unwrap(), bytes);
}

#[test]
fn reading_a_cookie_fails_for_two_reasons() {
    let s = store();
    match s.decode("sid", None) {
        Err(CookieError::NotFound(name)) => assert_eq!(name, "sid"),
        other => panic!("unexpected {:?}", other),
    }
    assert!(matches!(s.decode("sid", Some("not base64!")), Err(CookieError::Decode)));
    assert!(matches!(s.decode("sid", Some("aGVsbG8")), Err(CookieError::Decode)));
}

#[test]
fn cookie_errors_become_statuses() {
    let e = CookieError::NotFound("sid".to_string()).into_status();
    assert_eq!((e.code, e.brief.as_str()), (400, "Cookie not found: sid"));
    let e = CookieError::Decode.into_status();
    assert_eq!((e.code, e.brief.as_str()), (400, "Invalid cookie encoding"));
    let e = CookieError::Deserialize { custom: true }.into_status();
    assert_eq!(
        (e.code, e.brief.as_str()),
        (422, "Failed to deserialize cookie value into expected type")
    );
    let e = CookieError::Deserialize { custom: false }.into_status();
    assert_eq!((e.code, e.brief.as_str()), (400, "Invalid cookie data"));
}

#[test]
fn session_errors_become_statuses() {
    let e = SessionError::NotFound("user".to_string()).into_status();
    assert_eq!((e.code, e.brief.as_str()), (400, "Session key not found: user"));
    let e = SessionError::Deserialize { custom: true }.into_status();
    assert_eq!(
        (e.code, e.brief.as_str()),
        (422, "Failed to deserialize session value into expected type")
    );
    let e = SessionError::Deserialize { custom: false }.into_status();
    assert_eq!((e.code, e.brief.as_str()), (400, "Invalid session data"));
}

#[test]
fn a_new_session_is_empty_and_untouched() {
    let s = SessionStore::new();
    assert!(!s.is_modified());
    assert!(!s.contains("a"));
    assert!(s.keys().is_empty());
    match s.get("a") {
        Err(SessionError::NotFound(k)) => assert_eq!(k, "a"),
        other => panic!("unexpected {:?}", other),
    }
}

#[test]
fn writing_marks_the_session() {
    let mut s = SessionStore::new();
    s.set("user", vec![1, 2]);
    assert!(s.is_modified());
    assert!(s.contains("user"));
    assert_eq!(s.get("user").unwrap(), &vec![1u8, 2]);
    s.set("user", vec![3]);
    assert_eq!(s.get("user").unwrap(), &vec![3u8]);
    s.set("role", vec![]);
    assert_eq!(s.keys(), vec!["user", "role"]);
}

#[test]
fn remove_marks_the_session_even_if_nothing_was_there() {
    let mut s = SessionStore::new();
    assert!(!s.remove("user"));
    assert!(s.is_modified());
    let mut s = SessionStore::new();
    s.set("user", vec![1]);
    assert!(s.remove("user"));
    assert!(!s.contains("user"));
    assert!(!s.remove("user"));
}

#[test]
fn clear_marks_the_session() {
    let mut s = SessionStore::new();
    s.clear();
    assert!(s.is_modified());
    s.set("a", vec![1]);
    s.clear();
    assert!(!s.contains("a"));
    assert!(s.keys().is_empty());
}

#[test]
fn take_leaves_a_fresh_session() {
    let mut s = SessionStore::new();
    s.set("a", vec![1]);
    let taken = s.take();
    assert!(taken.is_modified());
    assert!(taken.contains("a"));
    assert!(!s.is_modified());
    assert!(!s.contains("a"));
}

#[test]
fn session_settings() {
    let m = SessionMiddleware::new();
    assert_eq!(m.name(), "maw.session");
    assert_eq!(m.protection(), CookieType::Signed);
    let m = m
        .cookie_name("sid")
        .cookie_type(CookieType::Encrypted)
        .cookie_options(CookieOptions::new().domain("example.org"));
    assert_eq!(m.name(), "sid");
    assert_eq!(m.protection(), CookieType::Encrypted);
    let mut touched = SessionStore::new();
    touched.set("k", vec![1]);
    match m.after_next(&mut touched) {
        SessionAction::Save { session, cookie_name, cookie_type, options } => {
            assert!(session.contains("k"));
            assert_eq!(cookie_name, "sid");
            assert_eq!(cookie_type, CookieType::Encrypted);
            let c = store().build_cookie("sid", "", options);
            assert_eq!(c.domain.as_deref(), Some("example.org"));
            assert_eq!(c.path.as_deref(), Some("/"));
            assert_eq!(c.secure, None);
        }
        SessionAction::Keep => panic!("not saved"),
    }
    assert!(!touched.is_modified());
    assert!(!touched.contains("k"));
}

#[test]
fn the_default_session_cookie_is_strict_about_transport() {
    let m = SessionMiddleware::new();
    let mut s = SessionStore::new();
    s.clear();
    match m.after_next(&mut s) {
        SessionAction::Save { cookie_name, cookie_type, options, .. } => {
            assert_eq!(cookie_name, "maw.session");
            assert_eq!(cookie_type, CookieType::Signed);
            let c = store().build_cookie("x", "", options);
            assert_eq!(c.path.as_deref(), Some("/"));
            assert_eq!(c.http_only, Some(true));
            assert_eq!(c.secure, Some(true));
            assert_eq!(c.same_site, Some(SameSite::Lax));
            assert_eq!(c.domain, None);
            assert_eq!(c.max_age, None);
            assert_eq!(c.expires, None);
        }
        SessionAction::Keep => panic!("not saved"),
    }
}

#[test]
fn an_untouched_session_is_not_saved() {
    let m = SessionMiddleware::new();
    let mut s = SessionStore::new();
    assert!(matches!(m.after_next(&mut s), SessionAction::Keep));
    assert!(!s.is_modified());
}

#[test]
fn session_identifiers() {
    assert_eq!(SESSION_ID_BYTES, 18);
    assert_eq!(session_id_text(&vec![0; 18]), "AAAAAAAAAAAAAAAAAAAAAAAA");
    assert_eq!(session_id_text(&vec![0xff; 18]), "________________________");
    assert_eq!(session_id_text(&vec![0xfb; 18]), "-_v7-_v7-_v7-_v7-_v7-_v7");
    let id = generate_id();
    assert_eq!(id.len(), 24);
    assert!(id.chars().all(|c| c.is_ascii_alphanumeric() || c == '-' || c == '_'));
    assert_ne!(generate_id(), generate_id());
    assert_eq!(saved_id(Some("old".to_string()), "new".to_string()), "old");
    assert_eq!(saved_id(None, "new".to_string()), "new");
    assert!(CookieStorage.is_inline());
}

#[test]
fn csrf_defaults() {
    let m = CsrfMiddleware::new();
    assert_eq!(m.kept_in(), CsrfStorage::Cookie);
    assert_eq!(m.name(), "csrf_token");
    assert_eq!(m.protection(), CookieType::Signed);
    let c = store().build_cookie("t", "", m.options());
    assert_eq!(c.path.as_deref(), Some("/"));
    assert_eq!(c.http_only, Some(true));
    assert_eq!(c.same_site, Some(SameSite::Strict));
    assert_eq!(c.secure, None);
    assert!(m.is_safe(&Method::get()));
    assert!(m.is_safe(&Method::head()));
    assert!(m.is_safe(&Method::options()));
    assert!(m.is_safe(&Method::trace()));
    assert!(!m.is_safe(&Method::post()));
    assert!(!m.is_safe(&Method::put()));
    assert!(!m.is_safe(&Method::delete()));
    assert!(!m.is_safe(&Method::patch()));
    assert_eq!(csrf_header(), "X-CSRF-Token");
    assert_eq!(FORBIDDEN, 403);
}

#[test]
fn csrf_settings() {
    let m = CsrfMiddleware::new()
        .storage(CsrfStorage::Session)
        .key_name("xsrf")
        .safe_methods(vec![Method::get()])
        .cookie_type(CookieType::Encrypted)
        .cookie_options(CookieOptions::new().secure(true));
    assert_eq!(m.kept_in(), CsrfStorage::Session);
    assert_eq!(m.name(), "xsrf");
    assert_eq!(m.protection(), CookieType::Encrypted);
    assert_eq!(store().build_cookie("t", "", m.options()).secure, Some(true));
    assert!(m.is_safe(&Method::get()));
    assert!(!m.is_safe(&Method::head()));
}

#[test]
fn csrf_lets_safe_methods_through_without_a_token() {
    let m = CsrfMiddleware::new();
    let out = m.decide(&Method::get(), None, "fresh".to_string(), None);
    assert!(out.allowed);
    assert!(out.fresh);
    assert_eq!(out.token, "fresh");
    let out = m.decide(&Method::get(), Some("kept".to_string()), "fresh".to_string(), Some("bad"));
    assert!(out.allowed);
    assert!(!out.fresh);
    assert_eq!(out.token, "kept");
}

#[test]
fn csrf_wants_the_token_back_on_unsafe_methods() {
    let m = CsrfMiddleware::new();
    let kept = || Some("secret".to_string());
    assert!(m.decide(&Method::post(), kept(), "f".to_string(), Some("secret")).allowed);
    assert!(!m.decide(&Method::post(), kept(), "f".to_string(), Some("secre")).allowed);
    assert!(!m.decide(&Method::post(), kept(), "f".to_string(), Some("secret ")).allowed);
    assert!(!m.decide(&Method::post(), kept(), "f".to_string(), Some("SECRET")).allowed);
    assert!(!m.decide(&Method::post(), kept(), "f".to_string(), Some("")).allowed);
    assert!(!m.decide(&Method::post(), kept(), "f".to_string(), None).allowed);
    assert!(!m.decide(&Method::delete(), None, "f".to_string(), None).allowed);
    let first = m.decide(&Method::post(), None, "f".to_string(), Some("f"));
    assert!(first.allowed);
    assert!(first.fresh);
}

#[test]
fn csrf_tokens_are_hex() {
    assert_eq!(TOKEN_BYTES, 32);
    assert_eq!(token_text(&vec![0x00, 0x0f, 0xa0, 0xff]), "000fa0ff");
    assert_eq!(token_text(&Vec::new()), "");
    let t = generate_token();
    assert_eq!(t.len(), 64);
    assert!(t.chars().all(|c| c.is_ascii_digit() || ('a'..='f').contains(&c)));
    assert_ne!(generate_token(), generate_token());
}

#[test]
fn body_limits() {
    assert_eq!(DEFAULT_BODY_LIMIT, 4 * 1024 * 1024);
    assert_eq!(BodyLimitMiddleware::new(10).max(), 10);
    assert_eq!(BodyLimitMiddleware::new(0).max(), 0);
    assert_eq!(effective_limit(Some(1), Some(2), 3), 1);
    assert_eq!(effective_limit(None, Some(2), 3), 2);
    assert_eq!(effective_limit(None, None, 3), 3);
    assert_eq!(effective_limit(Some(0), None, 3), 0);
}

#[test]
fn config_defaults() {
    let c = Config::new();
    assert_eq!(c.max_body(), 4 * 1024 * 1024);
    assert_eq!(c.proxy(), "");
    assert_eq!(c.key().as_bytes().len(), 64);
    assert_eq!(c.session_settings().name(), "maw.session");
    assert_ne!(Config::new().key().as_bytes(), c.key().as_bytes());
}

#[test]
fn config_settings() {
    let c = Config::new()
        .body_limit(1024)
        .proxy_header("X-Forwarded-For")
        .cookie_key(vec![5; 64])
        .session(SessionMiddleware::new().cookie_name("s"));
    assert_eq!(c.max_body(), 1024);
    assert_eq!(c.proxy(), "X-Forwarded-For");
    assert_eq!(c.key().as_bytes(), &vec![5u8; 64]);
    assert_eq!(c.session_settings().name(), "s");
    let c = c.body_limit(7);
    assert_eq!(c.max_body(), 7);
    assert_eq!(c.proxy(), "X-Forwarded-For");
}
