//! Calls into std and into the outside crates (`http` through `reqwest`,
//! `url`, `serde_json`), each with the contract the library relies on.

use vstd::prelude::*;
use std::str::FromStr;

verus! {

/// What `str::to_uppercase` yields for a text.
pub uninterp spec fn upper_of(s: Seq<char>) -> Seq<char>;

/// What `str::trim` yields for a text.
pub uninterp spec fn trim_of(s: Seq<char>) -> Seq<char>;

/// The normalized (lower-case) header name that `HeaderName::from_str`
/// yields for a text, or `None` when it refuses the text.
pub uninterp spec fn header_name_of(s: Seq<char>) -> Option<Seq<char>>;

/// The scheme of the URL that `Url::parse` yields for a text, or the kind of
/// its parse failure.
pub uninterp spec fn url_parse_of(s: Seq<char>) -> Result<Seq<char>, UrlFault>;

/// The compact serialization of the JSON value that `serde_json` parses
/// from a text, or `None` when the text is not JSON.
pub uninterp spec fn compact_json_of(s: Seq<char>) -> Option<Seq<char>>;

/// What a parsed JSON text looks like to the renderer, or `None` when the
/// text is not JSON.
pub uninterp spec fn json_shape_of(s: Seq<char>) -> Option<JsonShape>;

/// The text that `String::from_utf8_lossy` makes of some bytes.
pub uninterp spec fn lossy_text_of(b: Seq<u8>) -> Seq<char>;

/// The kinds of `url::ParseError` that the library tells apart.
#[derive(PartialEq, Eq, Structural, Clone, Copy, Debug)]
pub enum UrlFault {
    InvalidIpv6Address,
    InvalidIpv4Address,
    InvalidPort,
    Other,
}

/// A parsed JSON document as the renderer sees it.
pub ghost enum JsonShape {
    /// A top-level object: each member's key and its compact serialization.
    Object(Seq<(Seq<char>, Seq<char>)>),
    /// Any other value, in its pretty-printed serialization.
    Other(Seq<char>),
}

/// A parsed JSON document held as plain text values.
pub enum JsonDoc {
    Object(Vec<(String, String)>),
    Other(String),
}

pub open spec fn pairs_view(v: Seq<(String, String)>) -> Seq<(Seq<char>, Seq<char>)> {
    v.map_values(|p: (String, String)| (p.0@, p.1@))
}

impl JsonDoc {
    pub open spec fn view(&self) -> JsonShape {
        match self {
            JsonDoc::Object(v) => JsonShape::Object(pairs_view(v@)),
            JsonDoc::Other(s) => JsonShape::Other(s@),
        }
    }
}

pub open spec fn opt_view(o: Option<String>) -> Option<Seq<char>> {
    match o {
        Some(t) => Some(t@),
        None => None,
    }
}

pub open spec fn ok_view(r: Result<String, String>) -> Option<Seq<char>> {
    match r {
        Ok(t) => Some(t@),
        Err(_) => None,
    }
}

pub open spec fn scheme_result_view(r: Result<String, UrlFault>) -> Result<Seq<char>, UrlFault> {
    match r {
        Ok(t) => Ok(t@),
        Err(f) => Err(f),
    }
}

pub open spec fn doc_view(o: Option<JsonDoc>) -> Option<JsonShape> {
    match o {
        Some(d) => Some(d@),
        None => None,
    }
}

/// A character whose UTF-8 bytes `HeaderValue::from_str` accepts: a tab, or
/// any character from the space on but DEL (every byte of a multi-byte
/// sequence is at least 128).
pub open spec fn header_value_char_ok(c: char) -> bool {
    c == '\t' || ((c as u32) >= 32 && (c as u32) != 127)
}

/// A byte that `HeaderValue::to_str` accepts: visible ASCII, a space or a tab.
pub open spec fn visible_ascii(b: u8) -> bool {
    (b >= 32 && b < 127) || b == 9
}

/// Relies on `str::to_uppercase`.
#[verifier::external_body]
pub(crate) fn to_upper(s: &str) -> (r: String)
    ensures
        r@ == upper_of(s@),
{
    s.to_uppercase()
}

/// Relies on `str::trim`: the result depends on the text alone.
#[verifier::external_body]
pub(crate) fn trim(s: &str) -> (r: String)
    ensures
        r@ == trim_of(s@),
{
    s.trim().to_string()
}

/// Relies on `http::HeaderName::from_str` (re-exported by `reqwest`), which
/// validates and lower-cases a header name, and on `HeaderName::as_str`.
#[verifier::external_body]
pub(crate) fn header_name(s: &str) -> (r: Option<String>)
    ensures
        header_name_of(s@) == opt_view(r),
{
    match reqwest::header::HeaderName::from_str(s) {
        Ok(n) => Some(n.as_str().to_string()),
        Err(_) => None,
    }
}

/// Relies on `http::HeaderValue::from_str`, which accepts a text exactly
/// when each of its bytes is a tab or at least 32 and not 127.
#[verifier::external_body]
pub(crate) fn header_value_ok(s: &str) -> (r: bool)
    ensures
        r == (forall|i: int| 0 <= i < s@.len() ==> header_value_char_ok(#[trigger] s@[i])),
{
    reqwest::header::HeaderValue::from_str(s).is_ok()
}

/// Relies on `http::HeaderValue::to_str`, which yields the value as text
/// exactly when each byte is visible ASCII, a space or a tab.
#[verifier::external_body]
pub(crate) fn header_value_text(b: &[u8]) -> (r: Option<String>)
    ensures
        r is Some == (forall|i: int| 0 <= i < b@.len() ==> visible_ascii(#[trigger] b@[i])),
        r matches Some(t) ==> t@ == b@.map_values(|x: u8| x as char),
{
    match reqwest::header::HeaderValue::from_bytes(b) {
        Ok(v) => v.to_str().ok().map(|t| t.to_string()),
        Err(_) => None,
    }
}

/// Relies on `url::Url::parse` and `Url::scheme`; the parse failures that
/// the library tells apart are kept, all others become `Other`.
#[verifier::external_body]
pub(crate) fn parse_url_scheme(s: &str) -> (r: Result<String, UrlFault>)
    ensures
        url_parse_of(s@) == scheme_result_view(r),
{
    match url::Url::parse(s) {
        Ok(u) => Ok(u.scheme().to_string()),
        Err(url::ParseError::InvalidIpv6Address) => Err(UrlFault::InvalidIpv6Address),
        Err(url::ParseError::InvalidIpv4Address) => Err(UrlFault::InvalidIpv4Address),
        Err(url::ParseError::InvalidPort) => Err(UrlFault::InvalidPort),
        Err(_) => Err(UrlFault::Other),
    }
}

/// Relies on `serde_json::from_str` into a `Value` and `serde_json::to_string`
/// of it: the text re-serialized compactly, or the parser's description of
/// why the text is not JSON.
#[verifier::external_body]
pub(crate) fn compact_json(s: &str) -> (r: Result<String, String>)
    ensures
        compact_json_of(s@) == ok_view(r),
{
    match serde_json::from_str::<serde_json::Value>(s) {
        Ok(v) => serde_json::to_string(&v).map_err(|e| e.to_string()),
        Err(e) => Err(e.to_string()),
    }
}

/// Relies on `serde_json::from_str` into a `Value`; an object's members come
/// with their compact `Display` text, any other value with
/// `serde_json::to_string_pretty`.
#[verifier::external_body]
pub(crate) fn json_shape(s: &str) -> (r: Option<JsonDoc>)
    ensures
        json_shape_of(s@) == doc_view(r),
{
    match serde_json::from_str::<serde_json::Value>(s) {
        Ok(serde_json::Value::Object(m)) => Some(JsonDoc::Object(
            m.iter().map(|(k, v)| (k.clone(), v.to_string())).collect(),
        )),
        Ok(v) => serde_json::to_string_pretty(&v).ok().map(JsonDoc::Other),
        Err(_) => None,
    }
}

/// Relies on `String::from_utf8_lossy`: the result depends on the bytes alone.
#[verifier::external_body]
pub(crate) fn utf8_lossy(b: &[u8]) -> (r: String)
    ensures
        r@ == lossy_text_of(b@),
{
    String::from_utf8_lossy(b).into_owned()
}

} // verus!
