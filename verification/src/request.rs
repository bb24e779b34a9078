//! What is decided of a request beside its route: the form of its body,
//! the address of its client, its parameters.

use vstd::prelude::*;
use vstd::string::*;
use crate::trie::{param_views, Param};

verus! {

/// A media type as far as the choice of a parser needs it.
#[derive(Debug)]
pub struct MediaType {
    /// The top-level type, such as `application`.
    pub kind: String,
    /// The subtype without its suffix, such as `json`.
    pub subtype: String,
    /// What follows the `+` of the subtype, if anything.
    pub suffix: Option<String>,
}

/// The parsers of request bodies.
#[derive(Clone, Copy, Debug, PartialEq, Eq, Structural)]
pub enum BodyFormat {
    Json,
    Form,
    Xml,
}

/// Why no parser fits a request.
#[derive(Clone, Copy, Debug, PartialEq, Eq, Structural)]
pub enum BodyError {
    UnsupportedMediaType,
    MissingContentType,
}

/// The parser for a body of the given media type: JSON for the subtype or
/// suffix `json`; for `application` types the form parser for
/// `x-www-form-urlencoded` and XML for `xml`; XML for `text/xml`.
pub open spec fn body_format_spec(
    kind: Seq<char>,
    subtype: Seq<char>,
    suffix: Option<Seq<char>>,
) -> Result<BodyFormat, BodyError> {
    if suffix == Some("json"@) || subtype == "json"@ {
        Ok(BodyFormat::Json)
    } else if kind == "application"@ {
        if subtype == "x-www-form-urlencoded"@ {
            Ok(BodyFormat::Form)
        } else if subtype == "xml"@ {
            Ok(BodyFormat::Xml)
        } else {
            Err(BodyError::UnsupportedMediaType)
        }
    } else if kind == "text"@ && subtype == "xml"@ {
        Ok(BodyFormat::Xml)
    } else {
        Err(BodyError::UnsupportedMediaType)
    }
}

/// Whether `s` is the text `t`.
pub fn text_is(s: &String, t: &str) -> (r: bool)
    ensures
        r == (s@ == t@),
{
    let other = String::from_str(t);
    *s == other
}

/// Chooses the parser for a body by the content type of the request.
pub fn body_format(content_type: Option<&MediaType>) -> (r: Result<BodyFormat, BodyError>)
    ensures
        r == match content_type {
            None => Err::<BodyFormat, BodyError>(BodyError::MissingContentType),
            Some(m) => body_format_spec(
                m.kind@,
                m.subtype@,
                match m.suffix {
                    Some(s) => Some(s@),
                    None => None,
                },
            ),
        },
{
    match content_type {
        None => Err(BodyError::MissingContentType),
        Some(m) => {
            let json_suffix = match &m.suffix {
                Some(s) => text_is(s, "json"),
                None => false,
            };
            if json_suffix || text_is(&m.subtype, "json") {
                Ok(BodyFormat::Json)
            } else if text_is(&m.kind, "application") {
                if text_is(&m.subtype, "x-www-form-urlencoded") {
                    Ok(BodyFormat::Form)
                } else if text_is(&m.subtype, "xml") {
                    Ok(BodyFormat::Xml)
                } else {
                    Err(BodyError::UnsupportedMediaType)
                }
            } else if text_is(&m.kind, "text") && text_is(&m.subtype, "xml") {
                Ok(BodyFormat::Xml)
            } else {
                Err(BodyError::UnsupportedMediaType)
            }
        },
    }
}

/// The address of the client: where a proxy header is configured, the
/// value of that header, empty if the request has none; else the address
/// of the connection.
pub fn client_ip(proxy_header: &str, forwarded: Option<&str>, peer: &str) -> (r: String)
    ensures
        r@ == if proxy_header@.len() > 0 {
            match forwarded {
                Some(v) => v@,
                None => Seq::empty(),
            }
        } else {
            peer@
        },
{
    if proxy_header.unicode_len() > 0 {
        match forwarded {
            Some(v) => String::from_str(v),
            None => String::new(),
        }
    } else {
        String::from_str(peer)
    }
}

/// Position of the first parameter named `key` at or after `from`.
pub open spec fn index_of_param(
    params: Seq<(Seq<char>, Seq<char>)>,
    key: Seq<char>,
    from: int,
) -> Option<int>
    decreases params.len() - from,
{
    if from < 0 || from >= params.len() {
        None
    } else if params[from].0 == key {
        Some(from)
    } else {
        index_of_param(params, key, from + 1)
    }
}

/// The value of the first parameter named `key`; empty where there is
/// none.
pub open spec fn param_spec(params: Seq<(Seq<char>, Seq<char>)>, key: Seq<char>) -> Seq<char> {
    match index_of_param(params, key, 0) {
        Some(i) => params[i].1,
        None => Seq::empty(),
    }
}

/// The value of the path parameter `key`; empty where the route has no
/// such parameter.
pub fn param_str<'a>(params: &'a Vec<Param>, key: &str) -> (r: &'a str)
    ensures
        r@ == param_spec(param_views(params@), key@),
{
    let wanted = String::from_str(key);
    let mut i: usize = 0;
    while i < params.len()
        invariant
            i <= params.len(),
            wanted@ == key@,
            index_of_param(param_views(params@), key@, 0) == index_of_param(
                param_views(params@),
                key@,
                i as int,
            ),
        decreases params.len() - i,
    {
        if params[i].name == wanted {
            return params[i].value.as_str();
        }
        i = i + 1;
    }
    proof {
        reveal_strlit("");
        assert(""@ =~= Seq::<char>::empty());
    }
    ""
}

/// Whether two texts are equal but for the case of ASCII letters.
pub open spec fn same_ignoring_case(a: Seq<char>, b: Seq<char>) -> bool {
    a.len() == b.len() && forall|i: int|
        0 <= i < a.len() ==> lower(#[trigger] a[i]) == lower(b[i])
}

/// A character with an upper-case ASCII letter made lower-case.
pub open spec fn lower(c: char) -> char {
    if 'A' <= c && c <= 'Z' {
        ((c as u8) + 32) as char
    } else {
        c
    }
}

/// Whether a request asks for a websocket: its `Upgrade` header says
/// `websocket`, in any case of the letters.
pub fn is_websocket(upgrade: Option<&str>) -> (r: bool)
    ensures
        r == (upgrade matches Some(v) && same_ignoring_case(v@, "websocket"@)),
{
    match upgrade {
        None => false,
        Some(v) => {
            let want = "websocket";
            let n = v.unicode_len();
            if n != want.unicode_len() {
                return false;
            }
            let mut i: usize = 0;
            while i < n
                invariant
                    i <= n,
                    n == v@.len(),
                    n == want@.len(),
                    want@ == "websocket"@,
                    upgrade == Some(v),
                    forall|j: int| 0 <= j < i ==> lower(#[trigger] v@[j]) == lower(want@[j]),
                decreases n - i,
            {
                let a = v.get_char(i);
                let b = want.get_char(i);
                if to_lower(a) != to_lower(b) {
                    return false;
                }
                i = i + 1;
            }
            true
        },
    }
}

/// Makes an upper-case ASCII letter lower-case.
pub fn to_lower(c: char) -> (r: char)
    ensures
        r == lower(c),
{
    if 'A' <= c && c <= 'Z' {
        let b: u8 = c as u8;
        (b + 32) as char
    } else {
        c
    }
}

} // verus!
