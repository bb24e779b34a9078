//! Calls into other crates.  Nothing here is proved: each function says
//! what is taken on trust of the call that it makes.

use vstd::prelude::*;
use vstd::string::*;

verus! {

/// The base64 text of `bytes` in the standard alphabet, with padding.
pub uninterp spec fn base64_standard(bytes: Seq<u8>) -> Seq<char>;

/// The bytes that `text` stands for in the standard alphabet with padding,
/// if it is such a text.
pub uninterp spec fn base64_standard_decoded(text: Seq<char>) -> Option<Seq<u8>>;

/// The base64 text of `bytes` in the URL-safe alphabet, without padding.
pub uninterp spec fn base64_url(bytes: Seq<u8>) -> Seq<char>;

/// The date of `secs` seconds after the epoch in the form of HTTP headers.
pub uninterp spec fn http_date(secs: u64) -> Seq<char>;

/// The seconds after the epoch that a date in an HTTP header names, if it
/// is such a date.
pub uninterp spec fn http_date_parsed(text: Seq<char>) -> Option<u64>;

/// The media type that goes with a file extension; the type of arbitrary
/// bytes where the extension is unknown.
pub uninterp spec fn mime_of_extension(ext: Seq<char>) -> Seq<char>;

/// The standard reason phrase of a status code, if it has one.
pub uninterp spec fn reason_of(status: u16) -> Option<Seq<char>>;

/// The largest input that `base64_encode` takes: its text must fit.
pub open spec fn max_encodable() -> nat {
    (usize::MAX / 4 - 4) as nat
}

/// The first second that `format_http_date` does not take: the year 10000.
pub const HTTP_DATE_END: u64 = 253402300800;

/// The model of optional bytes.
pub open spec fn bytes_view(b: Option<Vec<u8>>) -> Option<Seq<u8>> {
    match b {
        Some(b) => Some(b@),
        None => None,
    }
}

/// `Engine::encode` of the `base64` crate on its `STANDARD` engine: the
/// text depends on the bytes alone.  The crate panics where the length of
/// the text does not fit a `usize`.
#[verifier::external_body]
pub(crate) fn base64_encode(bytes: &[u8]) -> (r: String)
    requires
        bytes@.len() <= max_encodable(),
    ensures
        r@ == base64_standard(bytes@),
{
    base64::Engine::encode(&base64::engine::general_purpose::STANDARD, bytes)
}

/// `Engine::decode` of the `base64` crate on its `STANDARD` engine: the
/// bytes, or the refusal, depend on the text alone.
#[verifier::external_body]
pub(crate) fn base64_decode(text: &str) -> (r: Option<Vec<u8>>)
    ensures
        bytes_view(r) == base64_standard_decoded(text@),
{
    base64::Engine::decode(&base64::engine::general_purpose::STANDARD, text).ok()
}

/// `Engine::encode` of the `base64` crate on its `URL_SAFE_NO_PAD` engine.
#[verifier::external_body]
pub(crate) fn base64_url_encode(bytes: &[u8]) -> (r: String)
    requires
        bytes@.len() <= max_encodable(),
    ensures
        r@ == base64_url(bytes@),
{
    base64::Engine::encode(&base64::engine::general_purpose::URL_SAFE_NO_PAD, bytes)
}

/// `constant_time_eq::constant_time_eq`: whether the two byte strings are
/// equal; strings of different lengths are not.
#[verifier::external_body]
pub(crate) fn bytes_equal(a: &[u8], b: &[u8]) -> (r: bool)
    ensures
        r == (a@ == b@),
{
    constant_time_eq::constant_time_eq(a, b)
}

/// `rand::fill` on a buffer of `count` bytes: of the bytes nothing is
/// known but their number.
#[verifier::external_body]
pub(crate) fn random_bytes(count: usize) -> (r: Vec<u8>)
    ensures
        r@.len() == count,
{
    let mut bytes = vec![0u8; count];
    rand::fill(&mut bytes[..]);
    bytes
}

/// `httpdate::fmt_http_date`: the text depends on the time alone.  The
/// crate panics on a time in the year 10000 or later.
#[verifier::external_body]
pub(crate) fn format_http_date(secs: u64) -> (r: String)
    requires
        secs < HTTP_DATE_END,
    ensures
        r@ == http_date(secs),
{
    httpdate::fmt_http_date(std::time::UNIX_EPOCH + std::time::Duration::from_secs(secs))
}

/// `httpdate::parse_http_date`: the time, or the refusal, depends on the
/// text alone.
#[verifier::external_body]
pub(crate) fn parse_http_date(text: &str) -> (r: Option<u64>)
    ensures
        r == http_date_parsed(text@),
{
    let parsed = httpdate::parse_http_date(text).ok()?;
    let since = parsed.duration_since(std::time::UNIX_EPOCH).ok()?;
    Some(since.as_secs())
}

/// `mime_guess::from_ext` and, of what it finds, `first_or_octet_stream`:
/// the media type depends on the extension alone.
#[verifier::external_body]
pub(crate) fn guess_mime(ext: &str) -> (r: String)
    ensures
        r@ == mime_of_extension(ext@),
{
    mime_guess::from_ext(ext).first_or_octet_stream().as_ref().to_string()
}

/// `http::StatusCode::from_u16` and, of a valid code,
/// `canonical_reason`: the phrase depends on the code alone; a number that
/// is no status code has none.
#[verifier::external_body]
pub(crate) fn reason_phrase(status: u16) -> (r: Option<String>)
    ensures
        crate::middlewares::cookie::opt_view(r) == reason_of(status),
{
    let code = http::StatusCode::from_u16(status).ok()?;
    code.canonical_reason().map(String::from)
}

} // verus!
