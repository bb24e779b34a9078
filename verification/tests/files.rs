use maw::middlewares::logging::{format_duration, LoggingMiddleware};
use maw::request::{
    body_format, client_ip, is_websocket, param_str, to_lower, BodyError, BodyFormat, MediaType,
};
use maw::static_files::{extension, Asset, StaticFiles, StaticResponse};
use maw::middlewares::cookie::CookieMiddleware;
use maw::text::{
    center, decimal_string, digit, hex_digit, hex_string, is_whitespace, push_decimal3,
    split_trimmed, trim_chars,
};
use maw::trie::Param;

fn asset(name: &str, last_modified: Option<u64>) -> Asset {
    Asset { name: name.to_string(), last_modified }
}

#[test]
fn a_directory_is_looked_up_as_its_index() {
    let s = StaticFiles::new();
    let c = s.candidates("");
    assert_eq!(c.first, "index.html");
    assert_eq!(c.second, None);
    let c = s.candidates("docs/");
    assert_eq!(c.first, "docs/index.html");
    assert_eq!(c.second, None);
}

#[test]
fn a_file_is_looked_up_as_itself_and_then_as_a_directory() {
    let s = StaticFiles::new();
    let c = s.candidates("docs");
    assert_eq!(c.first, "docs");
    assert_eq!(c.second.as_deref(), Some("docs/index.html"));
    let c = s.candidates("css/site.css");
    assert_eq!(c.first, "css/site.css");
    assert_eq!(c.second.as_deref(), Some("css/site.css/index.html"));
}

#[test]
fn the_index_file_can_be_chosen() {
    let s = StaticFiles::new().index("home.htm");
    assert_eq!(s.candidates("").first, "home.htm");
    assert_eq!(s.candidates("a").second.as_deref(), Some("a/home.htm"));
    assert_eq!(s.clone().candidates("a/").first, "a/home.htm");
}

#[test]
fn a_missing_asset_is_not_found() {
    assert!(matches!(StaticFiles::new().respond(None, None), StaticResponse::NotFound));
    assert!(matches!(
        StaticFiles::new().respond(None, Some("Sun, 06 Nov 1994 08:49:37 GMT")),
        StaticResponse::NotFound
    ));
}

#[test]
fn an_asset_is_served_with_its_type_and_date() {
    let a = asset("css/site.css", Some(784111777));
    match StaticFiles::new().respond(Some(&a), None) {
        StaticResponse::Serve { last_modified, content_type, cache_control } => {
            assert_eq!(last_modified.as_deref(), Some("Sun, 06 Nov 1994 08:49:37 GMT"));
            assert_eq!(content_type, "text/css");
            assert_eq!(cache_control, None);
        }
        other => panic!("unexpected {:?}", other),
    }
}

#[test]
fn an_asset_without_date_or_known_type() {
    let a = asset("blob", None);
    match StaticFiles::new().max_age(60).respond(Some(&a), Some("Sun, 06 Nov 1994 08:49:37 GMT")) {
        StaticResponse::Serve { last_modified, content_type, cache_control } => {
            assert_eq!(last_modified, None);
            assert_eq!(content_type, "application/octet-stream");
            assert_eq!(cache_control.as_deref(), Some("max-age=60"));
        }
        other => panic!("unexpected {:?}", other),
    }
}

#[test]
fn an_unchanged_asset_is_not_sent_again() {
    let a = asset("index.html", Some(784111777));
    let s = StaticFiles::new();
    match s.respond(Some(&a), Some("Sun, 06 Nov 1994 08:49:37 GMT")) {
        StaticResponse::NotModified { date } => assert_eq!(date, "Sun, 06 Nov 1994 08:49:37 GMT"),
        other => panic!("unexpected {:?}", other),
    }
    assert!(matches!(
        s.respond(Some(&a), Some("Mon, 07 Nov 1994 08:49:37 GMT")),
        StaticResponse::NotModified { .. }
    ));
    assert!(matches!(
        s.respond(Some(&a), Some("Sunday, 06-Nov-94 08:49:37 GMT")),
        StaticResponse::NotModified { .. }
    ));
}

#[test]
fn a_changed_asset_or_an_unreadable_date_sends_the_asset() {
    let a = asset("index.html", Some(784111777));
    let s = StaticFiles::new();
    match s.respond(Some(&a), Some("Sun, 06 Nov 1994 08:49:36 GMT")) {
        StaticResponse::Serve { last_modified, content_type, .. } => {
            assert_eq!(last_modified.as_deref(), Some("Sun, 06 Nov 1994 08:49:37 GMT"));
            assert_eq!(content_type, "text/html");
        }
        other => panic!("unexpected {:?}", other),
    }
    assert!(matches!(s.respond(Some(&a), Some("yesterday")), StaticResponse::Serve { .. }));
    assert!(matches!(s.respond(Some(&a), Some("")), StaticResponse::Serve { .. }));
}

#[test]
fn a_date_beyond_the_calendar_is_not_sent() {
    let a = asset("a.txt", Some(253402300800));
    match StaticFiles::new().respond(Some(&a), Some("Sun, 06 Nov 1994 08:49:37 GMT")) {
        StaticResponse::Serve { last_modified, content_type, .. } => {
            assert_eq!(last_modified, None);
            assert_eq!(content_type, "text/plain");
        }
        other => panic!("unexpected {:?}", other),
    }
    let last = asset("a.txt", Some(253402300799));
    match StaticFiles::new().respond(Some(&last), None) {
        StaticResponse::Serve { last_modified, .. } => {
            assert_eq!(last_modified.as_deref(), Some("Fri, 31 Dec 9999 23:59:59 GMT"))
        }
        other => panic!("unexpected {:?}", other),
    }
}

#[test]
fn max_age_sets_cache_control() {
    let serve = |s: StaticFiles| match s.respond(Some(&asset("a.js", None)), None) {
        StaticResponse::Serve { cache_control, .. } => cache_control,
        other => panic!("unexpected {:?}", other),
    };
    assert_eq!(serve(StaticFiles::new()), None);
    assert_eq!(serve(StaticFiles::new().max_age(0)), None);
    assert_eq!(serve(StaticFiles::new().max_age(1)).as_deref(), Some("max-age=1"));
    assert_eq!(serve(StaticFiles::new().max_age(86400)).as_deref(), Some("max-age=86400"));
    assert_eq!(
        serve(StaticFiles::new().max_age(u32::MAX)).as_deref(),
        Some("max-age=4294967295")
    );
    assert_eq!(serve(StaticFiles::new().max_age(5).max_age(0)), None);
}

#[test]
fn decide_compares_the_dates() {
    let s = StaticFiles::new();
    let dated = |t: u64| Some((t, format!("date {}", t)));
    assert!(matches!(
        s.decide(dated(10), Some(10), "t".to_string()),
        StaticResponse::NotModified { .. }
    ));
    assert!(matches!(
        s.decide(dated(10), Some(11), "t".to_string()),
        StaticResponse::NotModified { .. }
    ));
    assert!(matches!(s.decide(dated(10), Some(9), "t".to_string()), StaticResponse::Serve { .. }));
    assert!(matches!(s.decide(dated(10), None, "t".to_string()), StaticResponse::Serve { .. }));
    assert!(matches!(s.decide(None, Some(9), "t".to_string()), StaticResponse::Serve { .. }));
}

#[test]
fn extensions() {
    assert_eq!(extension("a.txt"), "txt");
    assert_eq!(extension("dir/a.tar.gz"), "gz");
    assert_eq!(extension("dir.d/file"), "");
    assert_eq!(extension("file"), "");
    assert_eq!(extension(""), "");
    assert_eq!(extension(".hidden"), "");
    assert_eq!(extension("dir/.hidden"), "");
    assert_eq!(extension(".hidden.txt"), "txt");
    assert_eq!(extension("a."), "");
    assert_eq!(extension("a.b/"), "");
    assert_eq!(extension("caf\u{e9}.\u{e9}t\u{e9}"), "\u{e9}t\u{e9}");
}

#[test]
fn decimal_digits() {
    assert_eq!(decimal_string(0), "0");
    assert_eq!(decimal_string(7), "7");
    assert_eq!(decimal_string(10), "10");
    assert_eq!(decimal_string(1234567890), "1234567890");
    assert_eq!(decimal_string(u64::MAX), "18446744073709551615");
    let mut s = String::from("x");
    push_decimal3(&mut s, 7);
    assert_eq!(s, "x007");
    push_decimal3(&mut s, 1045);
    assert_eq!(s, "x007045");
    assert_eq!(digit(0), '0');
    assert_eq!(digit(9), '9');
}

#[test]
fn hex_digits() {
    assert_eq!(hex_digit(0), '0');
    assert_eq!(hex_digit(9), '9');
    assert_eq!(hex_digit(10), 'a');
    assert_eq!(hex_digit(15), 'f');
    assert_eq!(hex_string(&vec![0x01, 0x23, 0xab, 0xcd, 0xef]), "0123abcdef");
    assert_eq!(hex_string(&Vec::new()), "");
}

#[test]
fn centring() {
    assert_eq!(center("ab", 6), "  ab  ");
    assert_eq!(center("ab", 5), " ab  ");
    assert_eq!(center("abc", 4), "abc ");
    assert_eq!(center("abcd", 4), "abcd");
    assert_eq!(center("abcde", 4), "abcde");
    assert_eq!(center("", 3), "   ");
    assert_eq!(center("\u{b5}s", 4), " \u{b5}s ");
    assert_eq!(center("GET", 7), format!("{:^7}", "GET"));
    assert_eq!(center("DELETE", 7), format!("{:^7}", "DELETE"));
}

#[test]
fn durations() {
    assert_eq!(format_duration(0), "0.000\u{b5}s");
    assert_eq!(format_duration(999), "0.999\u{b5}s");
    assert_eq!(format_duration(1_000), "1.000\u{b5}s");
    assert_eq!(format_duration(12_345), "12.345\u{b5}s");
    assert_eq!(format_duration(999_999), "999.999\u{b5}s");
    assert_eq!(format_duration(1_000_000), "1.000ms");
    assert_eq!(format_duration(1_234_567), "1.234ms");
    assert_eq!(format_duration(999_999_999), "999.999ms");
    assert_eq!(format_duration(1_000_000_000), "1.000s");
    assert_eq!(format_duration(1_500_000_000), "1.500s");
    assert_eq!(format_duration(61_007_000_000), "61.007s");
    assert_eq!(format_duration(u64::MAX), "18446744073.709s");
}

#[test]
fn log_lines() {
    let log = LoggingMiddleware::new();
    assert_eq!(
        log.line(200, 1_234_567, "127.0.0.1:5000", "GET", "/users/1"),
        "200 |  1.234ms   | 127.0.0.1:5000 |   GET   | /users/1"
    );
    assert_eq!(
        log.line(404, 999, "", "OPTIONS", "/"),
        format!("{} | {:^10} | {} | {:^7} | {}", 404, "0.999\u{b5}s", "", "OPTIONS", "/")
    );
}

#[test]
fn body_formats() {
    let m = |k: &str, s: &str, x: Option<&str>| MediaType {
        kind: k.to_string(),
        subtype: s.to_string(),
        suffix: x.map(|x| x.to_string()),
    };
    assert_eq!(body_format(None), Err(BodyError::MissingContentType));
    assert_eq!(body_format(Some(&m("application", "json", None))), Ok(BodyFormat::Json));
    assert_eq!(body_format(Some(&m("text", "json", None))), Ok(BodyFormat::Json));
    assert_eq!(
        body_format(Some(&m("application", "vnd.api", Some("json")))),
        Ok(BodyFormat::Json)
    );
    assert_eq!(
        body_format(Some(&m("application", "x-www-form-urlencoded", None))),
        Ok(BodyFormat::Form)
    );
    assert_eq!(body_format(Some(&m("application", "xml", None))), Ok(BodyFormat::Xml));
    assert_eq!(body_format(Some(&m("text", "xml", None))), Ok(BodyFormat::Xml));
    assert_eq!(
        body_format(Some(&m("application", "octet-stream", None))),
        Err(BodyError::UnsupportedMediaType)
    );
    assert_eq!(
        body_format(Some(&m("application", "atom", Some("xml")))),
        Err(BodyError::UnsupportedMediaType)
    );
    assert_eq!(body_format(Some(&m("text", "plain", None))), Err(BodyError::UnsupportedMediaType));
    assert_eq!(
        body_format(Some(&m("text", "x-www-form-urlencoded", None))),
        Err(BodyError::UnsupportedMediaType)
    );
    assert_eq!(body_format(Some(&m("image", "xml", None))), Err(BodyError::UnsupportedMediaType));
}

#[test]
fn client_addresses() {
    assert_eq!(client_ip("", None, "10.0.0.1:80"), "10.0.0.1:80");
    assert_eq!(client_ip("", Some("1.2.3.4"), "10.0.0.1:80"), "10.0.0.1:80");
    assert_eq!(client_ip("X-Forwarded-For", Some("1.2.3.4"), "10.0.0.1:80"), "1.2.3.4");
    assert_eq!(client_ip("X-Forwarded-For", None, "10.0.0.1:80"), "");
}

#[test]
fn parameters_by_name() {
    let params = vec![
        Param { name: "id".to_string(), value: "42".to_string() },
        Param { name: "rest".to_string(), value: "a/b".to_string() },
        Param { name: "id".to_string(), value: "43".to_string() },
    ];
    assert_eq!(param_str(&params, "id"), "42");
    assert_eq!(param_str(&params, "rest"), "a/b");
    assert_eq!(param_str(&params, "none"), "");
    assert_eq!(param_str(&Vec::new(), "id"), "");
}

#[test]
fn websocket_upgrades() {
    assert!(is_websocket(Some("websocket")));
    assert!(is_websocket(Some("WebSocket")));
    assert!(is_websocket(Some("WEBSOCKET")));
    assert!(!is_websocket(Some("websockets")));
    assert!(!is_websocket(Some("websocke")));
    assert!(!is_websocket(Some("h2c")));
    assert!(!is_websocket(Some("")));
    assert!(!is_websocket(None));
    assert_eq!(to_lower('Q'), 'q');
    assert_eq!(to_lower('q'), 'q');
    assert_eq!(to_lower('1'), '1');
}

#[test]
fn splitting_gives_one_piece_more_than_separators() {
    assert_eq!(split_trimmed("", ';'), vec![""]);
    assert_eq!(split_trimmed("a", ';'), vec!["a"]);
    assert_eq!(split_trimmed("a;b", ';'), vec!["a", "b"]);
    assert_eq!(split_trimmed("a;", ';'), vec!["a", ""]);
    assert_eq!(split_trimmed(";a", ';'), vec!["", "a"]);
    assert_eq!(split_trimmed(";;", ';'), vec!["", "", ""]);
    assert_eq!(split_trimmed("a,b;c", ','), vec!["a", "b;c"]);
}

#[test]
fn pieces_are_trimmed() {
    assert_eq!(split_trimmed(" a ; b\t;\n c d \r", ';'), vec!["a", "b", "c d"]);
    assert_eq!(split_trimmed("   ", ';'), vec![""]);
    assert_eq!(split_trimmed(" ; ", ';'), vec!["", ""]);
    let text = " x=1;  y = 2 ;z=3;; ";
    let expected: Vec<String> = text.split(';').map(|p| p.trim().to_string()).collect();
    assert_eq!(split_trimmed(text, ';'), expected);
    let chars: Vec<char> = "\u{a0}\u{2003} a\u{3000}b \u{85}\u{205f}".chars().collect();
    assert_eq!(trim_chars(&chars), "a\u{3000}b");
    assert_eq!(trim_chars(&chars), chars.iter().collect::<String>().trim());
    assert_eq!(trim_chars(&Vec::new()), "");
}

#[test]
fn white_space_is_what_the_standard_library_says() {
    for code in 0u32..0x3100 {
        if let Some(c) = char::from_u32(code) {
            assert_eq!(is_whitespace(c), c.is_whitespace(), "U+{:04X}", code);
        }
    }
}

#[test]
fn cookie_header_pieces() {
    let m = CookieMiddleware::new();
    assert_eq!(m.header_pieces("sid=abc; theme=dark;lang=en"), vec!["sid=abc", "theme=dark", "lang=en"]);
    assert_eq!(m.header_pieces(""), vec![""]);
    assert_eq!(m.header_pieces("a=b"), vec!["a=b"]);
}
