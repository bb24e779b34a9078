//! Serving embedded files: which asset names to try for a request path,
//! and what to answer once the host has looked them up.

use vstd::prelude::*;
use vstd::string::*;
use crate::bridge::{
    format_http_date, guess_mime, http_date, http_date_parsed, mime_of_extension,
    parse_http_date, HTTP_DATE_END,
};
use crate::middlewares::cookie::{clone_opt, opt_view};
use crate::text::{decimal, push_decimal};

verus! {

/// The settings of a static file handler.
#[derive(Debug)]
pub struct StaticFiles {
    index: String,
    cache_control: Option<String>,
}

/// Mathematical model of a [`StaticFiles`].
pub struct StaticFilesView {
    /// The file that stands for a directory.
    pub index: Seq<char>,
    /// The value of the `Cache-Control` header, if one is sent.
    pub cache_control: Option<Seq<char>>,
}

impl View for StaticFiles {
    type V = StaticFilesView;

    closed spec fn view(&self) -> StaticFilesView {
        StaticFilesView { index: self.index@, cache_control: opt_view(self.cache_control) }
    }
}

impl Clone for StaticFiles {
    fn clone(&self) -> (r: Self)
        ensures
            r@ == self@,
    {
        StaticFiles { index: self.index.clone(), cache_control: clone_opt(&self.cache_control) }
    }
}

/// The asset names to try for a request path, in order.
#[derive(Debug)]
pub struct Candidates {
    pub first: String,
    pub second: Option<String>,
}

/// What the host found: the name under which the asset was found, and the
/// time of its last change in seconds since the epoch, if that is known.
#[derive(Debug)]
pub struct Asset {
    pub name: String,
    pub last_modified: Option<u64>,
}

/// The answer to a request for a static file.
#[derive(Debug)]
pub enum StaticResponse {
    /// 404: there is no such asset.
    NotFound,
    /// 304: the client has the asset as it is; `date` is the value of the
    /// `Last-Modified` header.
    NotModified { date: String },
    /// 200 with the asset as the body and these headers.
    Serve { last_modified: Option<String>, content_type: String, cache_control: Option<String> },
}

/// Mathematical model of a [`StaticResponse`].
pub enum StaticResponseView {
    NotFound,
    NotModified { date: Seq<char> },
    Serve {
        last_modified: Option<Seq<char>>,
        content_type: Seq<char>,
        cache_control: Option<Seq<char>>,
    },
}

impl View for StaticResponse {
    type V = StaticResponseView;

    open spec fn view(&self) -> StaticResponseView {
        match self {
            StaticResponse::NotFound => StaticResponseView::NotFound,
            StaticResponse::NotModified { date } => StaticResponseView::NotModified {
                date: date@,
            },
            StaticResponse::Serve {
                last_modified,
                content_type,
                cache_control,
            } => StaticResponseView::Serve {
                last_modified: opt_view(*last_modified),
                content_type: content_type@,
                cache_control: opt_view(*cache_control),
            },
        }
    }
}

/// Position of the last `c` in `s`, or -1.
pub open spec fn last_index_of(s: Seq<char>, c: char) -> int
    decreases s.len(),
{
    if s.len() == 0 {
        -1
    } else if s.last() == c {
        s.len() - 1
    } else {
        last_index_of(s.drop_last(), c)
    }
}

/// The extension of the file that a path names: what follows the last dot
/// of the last segment, unless that dot begins the segment.
pub open spec fn extension_spec(path: Seq<char>) -> Seq<char> {
    let dot = last_index_of(path, '.');
    let slash = last_index_of(path, '/');
    if dot < 0 || dot < slash || dot == slash + 1 {
        Seq::empty()
    } else {
        path.subrange(dot + 1, path.len() as int)
    }
}

/// The asset names to try for `path`: for a directory, its index file; for
/// anything else the path itself and then the index file below it.
pub open spec fn candidates_spec(index: Seq<char>, path: Seq<char>) -> (Seq<char>, Option<
    Seq<char>,
>) {
    if path.len() == 0 || path.last() == '/' {
        (path + index, None)
    } else {
        (path, Some(path + seq!['/'] + index))
    }
}

/// The value of the `Cache-Control` header for a lifetime in seconds; none
/// for the lifetime zero.
pub open spec fn cache_control_spec(seconds: u32) -> Option<Seq<char>> {
    if seconds > 0 {
        Some("max-age="@ + decimal(seconds as nat))
    } else {
        None
    }
}

/// The time of the last change as it is sent: none where it is unknown or
/// lies beyond the dates that a header can hold.
pub open spec fn sendable_date(last_modified: Option<u64>) -> Option<u64> {
    match last_modified {
        Some(t) => if t < HTTP_DATE_END {
            Some(t)
        } else {
            None
        },
        None => None,
    }
}

/// The answer for an asset found under `name`: 304 where the client
/// names a date that is not before the last change, else the asset with
/// its date, its media type and the cache settings.
pub open spec fn found_response(
    settings: StaticFilesView,
    name: Seq<char>,
    last_modified: Option<u64>,
    if_modified_since: Option<Seq<char>>,
) -> StaticResponseView {
    let dated = sendable_date(last_modified);
    if dated is Some && if_modified_since is Some && http_date_parsed(if_modified_since->0)
        is Some && dated->0 <= http_date_parsed(if_modified_since->0)->0 {
        StaticResponseView::NotModified { date: http_date(dated->0) }
    } else {
        StaticResponseView::Serve {
            last_modified: match dated {
                Some(t) => Some(http_date(t)),
                None => None,
            },
            content_type: mime_of_extension(extension_spec(name)),
            cache_control: settings.cache_control,
        }
    }
}

/// The extension of the file that `path` names.
pub fn extension(path: &str) -> (r: &str)
    ensures
        r@ == extension_spec(path@),
{
    let n = path.unicode_len();
    let mut dot: Option<usize> = None;
    let mut slash: Option<usize> = None;
    let mut i: usize = 0;
    while i < n
        invariant
            i <= n,
            n == path@.len(),
            match dot {
                Some(d) => d < i && last_index_of(path@.take(i as int), '.') == d,
                None => last_index_of(path@.take(i as int), '.') == -1,
            },
            match slash {
                Some(s) => s < i && last_index_of(path@.take(i as int), '/') == s,
                None => last_index_of(path@.take(i as int), '/') == -1,
            },
        decreases n - i,
    {
        let c = path.get_char(i);
        assert(path@.take(i + 1).drop_last() =~= path@.take(i as int));
        if c == '.' {
            dot = Some(i);
        } else if c == '/' {
            slash = Some(i);
        }
        i = i + 1;
    }
    assert(path@.take(n as int) =~= path@);
    match dot {
        None => path.substring_char(0, 0),
        Some(d) => {
            let hidden = match slash {
                Some(s) => d < s || d == s + 1,
                None => d == 0,
            };
            if hidden {
                path.substring_char(0, 0)
            } else {
                path.substring_char(d + 1, n)
            }
        },
    }
}

impl StaticFiles {
    /// A handler that takes `index.html` for a directory and sends no
    /// `Cache-Control` header.
    pub fn new() -> (r: Self)
        ensures
            r@ == (StaticFilesView { index: "index.html"@, cache_control: None }),
    {
        StaticFiles { index: String::from_str("index.html"), cache_control: None }
    }

    /// Sets the file that stands for a directory.
    pub fn index(self, file: &str) -> (r: Self)
        ensures
            r@ == (StaticFilesView { index: file@, ..self@ }),
    {
        let mut r = self;
        r.index = String::from_str(file);
        r
    }

    /// Sets for how many seconds clients may keep a file; zero sends no
    /// `Cache-Control` header.
    pub fn max_age(self, seconds: u32) -> (r: Self)
        ensures
            r@ == (StaticFilesView { cache_control: cache_control_spec(seconds), ..self@ }),
    {
        let mut r = self;
        if seconds > 0 {
            let mut text = String::from_str("max-age=");
            push_decimal(&mut text, seconds as u64);
            r.cache_control = Some(text);
        } else {
            r.cache_control = None;
        }
        r
    }

    /// The asset names to try for the request path `path`.
    pub fn candidates(&self, path: &str) -> (r: Candidates)
        ensures
            (r.first@, opt_view(r.second)) == candidates_spec(self@.index, path@),
    {
        let n = path.unicode_len();
        let directory = if n == 0 {
            true
        } else {
            path.get_char(n - 1) == '/'
        };
        if directory {
            Candidates {
                first: String::from_str(path).concat(self.index.as_str()),
                second: None,
            }
        } else {
            let below = String::from_str(path).concat("/").concat(self.index.as_str());
            proof {
                reveal_strlit("/");
                assert("/"@ =~= seq!['/']);
            }
            Candidates { first: String::from_str(path), second: Some(below) }
        }
    }

    /// The answer once the dates are formatted and parsed and the media
    /// type is known.
    pub fn decide(
        &self,
        last_modified: Option<(u64, String)>,
        since: Option<u64>,
        content_type: String,
    ) -> (r: StaticResponse)
        ensures
            r@ == match last_modified {
                Some((t, text)) => if since is Some && t <= since->0 {
                    StaticResponseView::NotModified { date: text@ }
                } else {
                    StaticResponseView::Serve {
                        last_modified: Some(text@),
                        content_type: content_type@,
                        cache_control: self@.cache_control,
                    }
                },
                None => StaticResponseView::Serve {
                    last_modified: None,
                    content_type: content_type@,
                    cache_control: self@.cache_control,
                },
            },
    {
        match last_modified {
            Some((t, text)) => {
                let unchanged = match since {
                    Some(s) => t <= s,
                    None => false,
                };
                if unchanged {
                    StaticResponse::NotModified { date: text }
                } else {
                    StaticResponse::Serve {
                        last_modified: Some(text),
                        content_type,
                        cache_control: clone_opt(&self.cache_control),
                    }
                }
            },
            None => StaticResponse::Serve {
                last_modified: None,
                content_type,
                cache_control: clone_opt(&self.cache_control),
            },
        }
    }

    /// The answer to a request: `found` is what the host found under the
    /// candidates, `if_modified_since` the header of that name.
    pub fn respond(&self, found: Option<&Asset>, if_modified_since: Option<&str>) -> (r:
        StaticResponse)
        ensures
            r@ == match found {
                None => StaticResponseView::NotFound,
                Some(asset) => found_response(
                    self@,
                    asset.name@,
                    asset.last_modified,
                    match if_modified_since {
                        Some(text) => Some(text@),
                        None => None,
                    },
                ),
            },
    {
        match found {
            None => StaticResponse::NotFound,
            Some(asset) => {
                let dated = match asset.last_modified {
                    Some(t) => if t < HTTP_DATE_END {
                        Some((t, format_http_date(t)))
                    } else {
                        None
                    },
                    None => None,
                };
                let since = match if_modified_since {
                    Some(text) => if dated.is_some() {
                        parse_http_date(text)
                    } else {
                        None
                    },
                    None => None,
                };
                let content_type = guess_mime(extension(asset.name.as_str()));
                self.decide(dated, since, content_type)
            },
        }
    }
}

} // verus!
