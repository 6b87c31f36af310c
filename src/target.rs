//! The URL validator: a purely syntactic classification of the target.

use vstd::prelude::*;
use crate::outside::{UrlFault, parse_url_scheme, scheme_result_view, url_parse_of};

verus! {

/// Why a URL is refused.
#[derive(PartialEq, Eq, Structural, Clone, Copy, Debug)]
pub enum UrlError {
    InvalidIpv6,
    InvalidIpv4,
    InvalidPort,
    /// Any other parse failure, or a scheme other than `http` and `https`.
    InvalidProtocol,
}

/// Whether `c` is the lower-case ASCII letter `lower` in either case.
pub open spec fn same_letter(c: char, lower: char) -> bool {
    c == lower || (c as u32) + 32 == lower as u32
}

/// Whether `s` equals the lower-case ASCII word `w` when ASCII letters are
/// compared without regard to case.
pub open spec fn ascii_caseless_eq(s: Seq<char>, w: Seq<char>) -> bool {
    s.len() == w.len() && forall|i: int| 0 <= i < s.len() ==> same_letter(#[trigger] s[i], w[i])
}

/// The schemes that the client speaks.
pub open spec fn scheme_allowed(s: Seq<char>) -> bool {
    ascii_caseless_eq(s, "http"@) || ascii_caseless_eq(s, "https"@)
}

/// The verdict on a URL from what its parse gave.
pub open spec fn classify(p: Result<Seq<char>, UrlFault>) -> Result<(), UrlError> {
    match p {
        Ok(s) => if scheme_allowed(s) {
            Ok(())
        } else {
            Err(UrlError::InvalidProtocol)
        },
        Err(UrlFault::InvalidIpv6Address) => Err(UrlError::InvalidIpv6),
        Err(UrlFault::InvalidIpv4Address) => Err(UrlError::InvalidIpv4),
        Err(UrlFault::InvalidPort) => Err(UrlError::InvalidPort),
        Err(UrlFault::Other) => Err(UrlError::InvalidProtocol),
    }
}

pub open spec fn url_error_message(e: UrlError) -> Seq<char> {
    match e {
        UrlError::InvalidIpv6 => "Error: The URL contains an invalid IPv6 address."@,
        UrlError::InvalidIpv4 => "Error: The URL contains an invalid IPv4 address."@,
        UrlError::InvalidPort => "Error: The URL contains an invalid port number."@,
        UrlError::InvalidProtocol => "Error: The URL does not have a valid base protocol."@,
    }
}

impl UrlError {
    /// The line that reports this error.
    pub fn message(&self) -> (r: &'static str)
        ensures
            r@ == url_error_message(*self),
    {
        match self {
            UrlError::InvalidIpv6 => "Error: The URL contains an invalid IPv6 address.",
            UrlError::InvalidIpv4 => "Error: The URL contains an invalid IPv4 address.",
            UrlError::InvalidPort => "Error: The URL contains an invalid port number.",
            UrlError::InvalidProtocol => "Error: The URL does not have a valid base protocol.",
        }
    }
}

fn caseless_eq(s: &str, w: &str) -> (r: bool)
    ensures
        r == ascii_caseless_eq(s@, w@),
{
    let n = s.unicode_len();
    if n != w.unicode_len() {
        return false;
    }
    let mut i: usize = 0;
    while i < n
        invariant
            n == s@.len(),
            n == w@.len(),
            i <= n,
            forall|j: int| 0 <= j < i ==> same_letter(#[trigger] s@[j], w@[j]),
        decreases n - i,
    {
        let c = s.get_char(i);
        let l = w.get_char(i);
        if !(c == l || (c as u32) + 32 == l as u32) {
            return false;
        }
        i = i + 1;
    }
    true
}

/// Decides `scheme_allowed`.
pub fn is_supported_scheme(s: &str) -> (r: bool)
    ensures
        r == scheme_allowed(s@),
{
    caseless_eq(s, "http") || caseless_eq(s, "https")
}

/// The verdict on a URL from the outcome of its parse: the scheme, or the
/// kind of parse failure.
pub fn classify_parsed(p: &Result<String, UrlFault>) -> (r: Result<(), UrlError>)
    ensures
        r == classify(scheme_result_view(*p)),
{
    match p {
        Ok(s) => if is_supported_scheme(s.as_str()) {
            Ok(())
        } else {
            Err(UrlError::InvalidProtocol)
        },
        Err(UrlFault::InvalidIpv6Address) => Err(UrlError::InvalidIpv6),
        Err(UrlFault::InvalidIpv4Address) => Err(UrlError::InvalidIpv4),
        Err(UrlFault::InvalidPort) => Err(UrlError::InvalidPort),
        Err(UrlFault::Other) => Err(UrlError::InvalidProtocol),
    }
}

/// Parses and classifies a URL; no network access is made.
pub fn validate_url(s: &str) -> (r: Result<(), UrlError>)
    ensures
        r == classify(url_parse_of(s@)),
{
    let p = parse_url_scheme(s);
    classify_parsed(&p)
}

/// A URL that parses, but with a scheme other than `http` or `https` (in
/// any letter case), is refused as having no valid base protocol.
pub proof fn lemma_other_scheme_refused(u: Seq<char>, scheme: Seq<char>)
    requires
        url_parse_of(u) == Ok::<Seq<char>, UrlFault>(scheme),
        !scheme_allowed(scheme),
    ensures
        classify(url_parse_of(u)) == Err::<(), UrlError>(UrlError::InvalidProtocol),
        url_error_message(UrlError::InvalidProtocol)
            == "Error: The URL does not have a valid base protocol."@,
{
}

/// A malformed IPv6 literal, IPv4 literal or port is reported as such, never
/// as the generic protocol error.
pub proof fn lemma_specific_faults_reported(u: Seq<char>)
    ensures
        url_parse_of(u) == Err::<Seq<char>, UrlFault>(UrlFault::InvalidIpv6Address) ==> classify(
            url_parse_of(u),
        ) == Err::<(), UrlError>(UrlError::InvalidIpv6),
        url_parse_of(u) == Err::<Seq<char>, UrlFault>(UrlFault::InvalidIpv4Address) ==> classify(
            url_parse_of(u),
        ) == Err::<(), UrlError>(UrlError::InvalidIpv4),
        url_parse_of(u) == Err::<Seq<char>, UrlFault>(UrlFault::InvalidPort) ==> classify(
            url_parse_of(u),
        ) == Err::<(), UrlError>(UrlError::InvalidPort),
{
}

} // verus!
