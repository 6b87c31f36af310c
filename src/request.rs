//! The request builder: one fully specified outbound request from a
//! configuration, and the narration lines that precede it.

use vstd::prelude::*;
use crate::args::{ArgErrorView, ConfigView, RequestConfig, fold_args, initial_config, lemma_first_token_url, lemma_step_end,
    lemma_step_json};
use crate::text::is_flag;
use crate::outside::{compact_json, compact_json_of, pairs_view};
use crate::target::{UrlError, classify, url_error_message, validate_url};
use crate::outside::url_parse_of;
use crate::text::text_eq;

verus! {

/// The methods that the client sends.
#[derive(PartialEq, Eq, Structural, Clone, Copy, Debug)]
pub enum Method {
    Get,
    Post,
    Head,
}

/// The hops followed when redirects are enabled.
pub const REDIRECT_LIMIT: usize = 10;

/// One outbound request, ready for the transport.
pub struct OutboundRequest {
    pub method: Method,
    pub url: String,
    /// Header name and value pairs, in order, repeats kept.
    pub headers: Vec<(String, String)>,
    pub body: Option<String>,
    /// How many redirects the transport may follow; zero means that a
    /// redirect response is returned as it is.
    pub max_redirects: usize,
}

pub ghost struct RequestView {
    pub method: Method,
    pub url: Seq<char>,
    pub headers: Seq<(Seq<char>, Seq<char>)>,
    pub body: Option<Seq<char>>,
    pub max_redirects: nat,
}

impl OutboundRequest {
    pub open spec fn view(&self) -> RequestView {
        RequestView {
            method: self.method,
            url: self.url@,
            headers: pairs_view(self.headers@),
            body: match self.body {
                Some(b) => Some(b@),
                None => None,
            },
            max_redirects: self.max_redirects as nat,
        }
    }
}

/// Why no request is sent.
#[derive(Debug)]
pub enum BuildError {
    Url(UrlError),
    UnsupportedMethod(String),
    /// The `--json` text does not parse as JSON; the parser's description.
    InvalidJson(String),
}

pub ghost enum BuildErrorView {
    Url(UrlError),
    UnsupportedMethod(Seq<char>),
    InvalidJson,
}

impl BuildError {
    pub open spec fn view(&self) -> BuildErrorView {
        match self {
            BuildError::Url(e) => BuildErrorView::Url(*e),
            BuildError::UnsupportedMethod(m) => BuildErrorView::UnsupportedMethod(m@),
            BuildError::InvalidJson(_) => BuildErrorView::InvalidJson,
        }
    }
}

pub open spec fn method_of(m: Seq<char>) -> Option<Method> {
    if m == "GET"@ {
        Some(Method::Get)
    } else if m == "POST"@ {
        Some(Method::Post)
    } else if m == "HEAD"@ {
        Some(Method::Head)
    } else {
        None
    }
}

/// Whether the headers hold a Content-Type (names are normalized to lower
/// case).
pub open spec fn has_content_type(hs: Seq<(Seq<char>, Seq<char>)>) -> bool {
    exists|i: int| 0 <= i < hs.len() && (#[trigger] hs[i]).0 == "content-type"@
}

/// The user's headers, with a default Content-Type added where a body
/// source calls for one and the user gave none.
pub open spec fn headers_with_default(c: ConfigView) -> Seq<(Seq<char>, Seq<char>)> {
    if has_content_type(c.headers) {
        c.headers
    } else if c.json_body is Some {
        c.headers.push(("content-type"@, "application/json"@))
    } else if c.form_data.len() > 0 {
        c.headers.push(("content-type"@, "application/x-www-form-urlencoded"@))
    } else {
        c.headers
    }
}

/// The request that a configuration with URL `url` describes.
pub open spec fn build_spec(url: Seq<char>, c: ConfigView) -> Result<RequestView, BuildErrorView> {
    match classify(url_parse_of(url)) {
        Err(e) => Err(BuildErrorView::Url(e)),
        Ok(_) => match method_of(c.method) {
            None => Err(BuildErrorView::UnsupportedMethod(c.method)),
            Some(m) => {
                let base = RequestView {
                    method: m,
                    url: url,
                    headers: headers_with_default(c),
                    body: None,
                    max_redirects: if c.follow_redirects {
                        REDIRECT_LIMIT as nat
                    } else {
                        0
                    },
                };
                match c.json_body {
                    Some(j) => match compact_json_of(j) {
                        None => Err(BuildErrorView::InvalidJson),
                        Some(b) => Ok(RequestView { body: Some(b), ..base }),
                    },
                    None => if m == Method::Post {
                        Ok(RequestView { body: Some(c.form_data), ..base })
                    } else {
                        Ok(base)
                    },
                }
            },
        },
    }
}

pub open spec fn build_view(r: Result<OutboundRequest, BuildError>) -> Result<RequestView, BuildErrorView> {
    match r {
        Ok(q) => Ok(q@),
        Err(e) => Err(e@),
    }
}

fn parse_method(m: &str) -> (r: Option<Method>)
    ensures
        r == method_of(m@),
{
    if text_eq(m, "GET") {
        Some(Method::Get)
    } else if text_eq(m, "POST") {
        Some(Method::Post)
    } else if text_eq(m, "HEAD") {
        Some(Method::Head)
    } else {
        None
    }
}

fn find_content_type(hs: &Vec<(String, String)>) -> (r: bool)
    ensures
        r == has_content_type(pairs_view(hs@)),
{
    let mut i: usize = 0;
    while i < hs.len()
        invariant
            i <= hs@.len(),
            forall|j: int| 0 <= j < i ==> (#[trigger] pairs_view(hs@)[j]).0 != "content-type"@,
        decreases hs@.len() - i,
    {
        if text_eq(hs[i].0.as_str(), "content-type") {
            assert(pairs_view(hs@)[i as int].0 == "content-type"@);
            return true;
        }
        i = i + 1;
    }
    false
}

/// A copy of a list of header pairs.
pub fn copy_pairs(hs: &Vec<(String, String)>) -> (r: Vec<(String, String)>)
    ensures
        pairs_view(r@) == pairs_view(hs@),
{
    let mut out: Vec<(String, String)> = Vec::new();
    let mut i: usize = 0;
    while i < hs.len()
        invariant
            i <= hs@.len(),
            pairs_view(out@) =~= pairs_view(hs@).subrange(0, i as int),
        decreases hs@.len() - i,
    {
        let p = (hs[i].0.clone(), hs[i].1.clone());
        let ghost prev = out@;
        out.push(p);
        assert(out@ =~= prev.push(p));
        assert(pairs_view(out@) =~= pairs_view(prev).push((p.0@, p.1@)));
        assert(pairs_view(hs@).subrange(0, i + 1) =~= pairs_view(hs@).subrange(0, i as int).push(
            (p.0@, p.1@),
        ));
        i = i + 1;
    }
    assert(pairs_view(hs@).subrange(0, hs@.len() as int) =~= pairs_view(hs@));
    out
}

fn default_headers(c: &RequestConfig) -> (r: Vec<(String, String)>)
    ensures
        pairs_view(r@) == headers_with_default(c@),
{
    let mut hs = copy_pairs(&c.headers);
    if find_content_type(&c.headers) {
    } else if c.json_body.is_some() {
        hs.push(("content-type".to_owned(), "application/json".to_owned()));
        assert(pairs_view(hs@) =~= headers_with_default(c@));
    } else if c.form_data.unicode_len() > 0 {
        hs.push(("content-type".to_owned(), "application/x-www-form-urlencoded".to_owned()));
        assert(pairs_view(hs@) =~= headers_with_default(c@));
    }
    hs
}

/// Validates the URL and assembles the request that the configuration
/// describes: the URL is checked first, then the method, then the JSON body.
pub fn build_request(c: &RequestConfig) -> (r: Result<OutboundRequest, BuildError>)
    requires
        c.url is Some,
    ensures
        build_view(r) == build_spec(c.url->0@, c@),
{
    let url = match &c.url {
        Some(u) => u.clone(),
        None => String::new(),
    };
    match validate_url(url.as_str()) {
        Err(e) => {
            return Err(BuildError::Url(e));
        },
        Ok(_) => {},
    }
    let headers = default_headers(c);
    let method = match parse_method(c.method.as_str()) {
        Some(m) => m,
        None => {
            return Err(BuildError::UnsupportedMethod(c.method.clone()));
        },
    };
    let max_redirects = if c.follow_redirects {
        REDIRECT_LIMIT
    } else {
        0
    };
    let body = match &c.json_body {
        Some(j) => match compact_json(j.as_str()) {
            Err(detail) => {
                return Err(BuildError::InvalidJson(detail));
            },
            Ok(b) => Some(b),
        },
        None => if method == Method::Post {
            Some(c.form_data.clone())
        } else {
            None
        },
    };
    let r = OutboundRequest { method, url, headers, body, max_redirects };
    assert(r@ == build_spec(c.url->0@, c@)->Ok_0);
    Ok(r)
}

impl BuildError {
    /// The line that reports this error.
    pub fn message(&self) -> (r: String)
        ensures
            r@ == match self {
                BuildError::Url(e) => url_error_message(*e),
                BuildError::UnsupportedMethod(m) => "Unsupported method: "@ + m@,
                BuildError::InvalidJson(d) => "Invalid JSON: "@ + d@,
            },
    {
        match self {
            BuildError::Url(e) => e.message().to_owned(),
            BuildError::UnsupportedMethod(m) => labelled("Unsupported method: ", m.as_str()),
            BuildError::InvalidJson(d) => labelled("Invalid JSON: ", d.as_str()),
        }
    }
}

/// The line that reports a failed connection, whatever its cause.
pub fn connect_failure_message() -> (r: &'static str)
    ensures
        r@ == "Error: Unable to connect to the server. Perhaps the network is offline or the server hostname cannot be resolved."@,
{
    "Error: Unable to connect to the server. Perhaps the network is offline or the server hostname cannot be resolved."
}

/// The lines announcing the request, none when silent.
pub open spec fn narration_spec(c: ConfigView, url: Seq<char>) -> Seq<Seq<char>> {
    if c.silent {
        Seq::empty()
    } else {
        let base = seq!["Requesting URL: "@ + url, "Method: "@ + c.method];
        match c.json_body {
            Some(j) => base.push("JSON: "@ + j),
            None => if c.form_data.len() > 0 {
                base.push("Data: "@ + c.form_data)
            } else {
                base
            },
        }
    }
}

pub open spec fn lines_view(v: Seq<String>) -> Seq<Seq<char>> {
    v.map_values(|s: String| s@)
}

/// Joins a label and a text.
pub fn labelled(label: &str, t: &str) -> (r: String)
    ensures
        r@ == label@ + t@,
{
    let mut r = label.to_owned();
    r.append(t);
    r
}

/// The narration printed before the request is sent.
pub fn narration(c: &RequestConfig) -> (r: Vec<String>)
    requires
        c.url is Some,
    ensures
        lines_view(r@) == narration_spec(c@, c.url->0@),
{
    let mut r: Vec<String> = Vec::new();
    if c.silent {
        assert(lines_view(r@) =~= narration_spec(c@, c.url->0@));
        return r;
    }
    let url = match &c.url {
        Some(u) => u.as_str(),
        None => "",
    };
    r.push(labelled("Requesting URL: ", url));
    r.push(labelled("Method: ", c.method.as_str()));
    match &c.json_body {
        Some(j) => {
            r.push(labelled("JSON: ", j.as_str()));
        },
        None => if c.form_data.unicode_len() > 0 {
            r.push(labelled("Data: ", c.form_data.as_str()));
        },
    }
    assert(lines_view(r@) =~= narration_spec(c@, c.url->0@));
    r
}

/// A JSON body without a method option makes the request a POST whose body
/// is the JSON text re-serialized compactly, sent as `application/json`.
pub proof fn lemma_json_body_posts(u: Seq<char>, j: Seq<char>)
    requires
        !is_flag(u),
    ensures
        fold_args(seq![u, "--json"@, j], 0, initial_config()) matches Ok(c) && c.method == "POST"@
            && c.json_body == Some(j),
        classify(url_parse_of(u)) is Ok && compact_json_of(j) is Some ==> (build_spec(
            u,
            fold_args(seq![u, "--json"@, j], 0, initial_config())->Ok_0,
        ) matches Ok(q) && q.method == Method::Post && q.body == compact_json_of(j) && q.headers
            == seq![("content-type"@, "application/json"@)]),
{
    reveal_strlit("POST");
    reveal_strlit("GET");
    let toks = seq![u, "--json"@, j];
    assert(toks[0] == u && toks[1] == "--json"@ && toks[2] == j);
    let c0 = initial_config();
    let c1 = ConfigView { url: Some(u), ..c0 };
    let c2 = ConfigView { json_body: Some(j), method: "POST"@, ..c1 };
    lemma_first_token_url(toks);
    lemma_step_json(toks, 1, c1);
    lemma_step_end(toks, c2);
    assert(!has_content_type(c2.headers));
    assert("POST"@.len() == 4 && "GET"@.len() == 3);
    assert(c2.method == "POST"@);
    assert(method_of(c2.method) == Some(Method::Post));
}

} // verus!
