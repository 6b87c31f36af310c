//! The argument interpreter: a left-to-right fold of the command-line tokens
//! into a request configuration, where a later directive overwrites an
//! earlier one.

use vstd::prelude::*;
use crate::outside::{
    header_name, header_name_of, header_value_char_ok, header_value_ok, opt_view, pairs_view, to_upper,
    trim, trim_of, upper_of,
};
use crate::text::{find_char, first_index, is_flag, slice_text, starts_with_dash, text_eq};

verus! {

/// The request configuration that the options describe.
pub struct RequestConfig {
    /// The first token that is not a flag, if any.
    pub url: Option<String>,
    /// The method, upper-cased; `GET` unless a directive sets it.
    pub method: String,
    /// The form body given with `-d`; empty when none was given.
    pub form_data: String,
    /// The JSON body given with `--json`.
    pub json_body: Option<String>,
    /// The headers given with `-H`, in order, repeats kept: a normalized
    /// name and a trimmed value.
    pub headers: Vec<(String, String)>,
    pub head_only: bool,
    pub out_file: Option<String>,
    pub follow_redirects: bool,
    pub silent: bool,
}

pub ghost struct ConfigView {
    pub url: Option<Seq<char>>,
    pub method: Seq<char>,
    pub form_data: Seq<char>,
    pub json_body: Option<Seq<char>>,
    pub headers: Seq<(Seq<char>, Seq<char>)>,
    pub head_only: bool,
    pub out_file: Option<Seq<char>>,
    pub follow_redirects: bool,
    pub silent: bool,
}

impl RequestConfig {
    pub open spec fn view(&self) -> ConfigView {
        ConfigView {
            url: opt_view(self.url),
            method: self.method@,
            form_data: self.form_data@,
            json_body: opt_view(self.json_body),
            headers: pairs_view(self.headers@),
            head_only: self.head_only,
            out_file: opt_view(self.out_file),
            follow_redirects: self.follow_redirects,
            silent: self.silent,
        }
    }
}

/// Why the options cannot make a configuration.
#[derive(Debug)]
pub enum ArgError {
    /// No URL was given.
    Usage,
    /// A `-H` value without a colon.
    MissingColon,
    /// A `-H` name that is not a valid header name.
    InvalidHeaderName,
    /// A `-H` value that is not a valid header value.
    InvalidHeaderValue,
    /// A flag that is not recognized, as it was written.
    UnknownOption(String),
}

pub ghost enum ArgErrorView {
    Usage,
    MissingColon,
    InvalidHeaderName,
    InvalidHeaderValue,
    UnknownOption(Seq<char>),
}

impl ArgError {
    pub open spec fn view(&self) -> ArgErrorView {
        match self {
            ArgError::Usage => ArgErrorView::Usage,
            ArgError::MissingColon => ArgErrorView::MissingColon,
            ArgError::InvalidHeaderName => ArgErrorView::InvalidHeaderName,
            ArgError::InvalidHeaderValue => ArgErrorView::InvalidHeaderValue,
            ArgError::UnknownOption(t) => ArgErrorView::UnknownOption(t@),
        }
    }
}

pub open spec fn value_chars_ok(v: Seq<char>) -> bool {
    forall|i: int| 0 <= i < v.len() ==> header_value_char_ok(#[trigger] v[i])
}

/// The usage line, listing every option.
pub open spec fn usage_text() -> Seq<char> {
    "Usage: minicurl <URL> [-X METHOD] [-d data] [--json JSON] [-H 'K: V']... [-I|--head] [-o FILE] [-L] [-s]"@
}

impl ArgError {
    /// The line that reports this error (for `Usage`, the usage line).
    pub fn message(&self) -> (r: String)
        ensures
            r@ == match self {
                ArgError::Usage => usage_text(),
                ArgError::MissingColon => "Error: -H expects 'Name: Value'"@,
                ArgError::InvalidHeaderName => "Error: invalid header name"@,
                ArgError::InvalidHeaderValue => "Error: invalid header value"@,
                ArgError::UnknownOption(t) => "Unknown option: "@ + t@,
            },
    {
        match self {
            ArgError::Usage => "Usage: minicurl <URL> [-X METHOD] [-d data] [--json JSON] [-H 'K: V']... [-I|--head] [-o FILE] [-L] [-s]".to_owned(),
            ArgError::MissingColon => "Error: -H expects 'Name: Value'".to_owned(),
            ArgError::InvalidHeaderName => "Error: invalid header name".to_owned(),
            ArgError::InvalidHeaderValue => "Error: invalid header value".to_owned(),
            ArgError::UnknownOption(t) => {
                let mut r = "Unknown option: ".to_owned();
                r.append(t.as_str());
                r
            },
        }
    }
}

/// The header that a `-H` value describes: split at the first colon, both
/// sides trimmed, the name normalized.
pub open spec fn header_entry(raw: Seq<char>) -> Result<(Seq<char>, Seq<char>), ArgErrorView> {
    match first_index(raw, ':') {
        None => Err(ArgErrorView::MissingColon),
        Some(p) => match header_name_of(trim_of(raw.subrange(0, p))) {
            None => Err(ArgErrorView::InvalidHeaderName),
            Some(n) => {
                let v = trim_of(raw.subrange(p + 1, raw.len() as int));
                if value_chars_ok(v) {
                    Ok((n, v))
                } else {
                    Err(ArgErrorView::InvalidHeaderValue)
                }
            },
        },
    }
}

pub open spec fn initial_config() -> ConfigView {
    ConfigView {
        url: None,
        method: "GET"@,
        form_data: Seq::empty(),
        json_body: None,
        headers: Seq::empty(),
        head_only: false,
        out_file: None,
        follow_redirects: false,
        silent: false,
    }
}

/// The outcome of reading the tokens from position `i` on, with `c`
/// gathered so far. A flag that wants a value but stands last is skipped.
pub open spec fn fold_args(toks: Seq<Seq<char>>, i: nat, c: ConfigView) -> Result<
    ConfigView,
    ArgErrorView,
>
    decreases toks.len() - i,
{
    if i >= toks.len() {
        if c.url is Some {
            Ok(c)
        } else {
            Err(ArgErrorView::Usage)
        }
    } else {
        let t = toks[i as int];
        let more = i + 1 < toks.len();
        if t == "-X"@ {
            if more {
                fold_args(toks, i + 2, ConfigView { method: upper_of(toks[i + 1int]), ..c })
            } else {
                fold_args(toks, i + 1, c)
            }
        } else if t == "-d"@ {
            if more {
                fold_args(toks, i + 2, ConfigView { form_data: toks[i + 1int], ..c })
            } else {
                fold_args(toks, i + 1, c)
            }
        } else if t == "--json"@ {
            if more {
                fold_args(
                    toks,
                    i + 2,
                    ConfigView { json_body: Some(toks[i + 1int]), method: "POST"@, ..c },
                )
            } else {
                fold_args(toks, i + 1, c)
            }
        } else if t == "-H"@ {
            if more {
                match header_entry(toks[i + 1int]) {
                    Err(e) => Err(e),
                    Ok(h) => fold_args(toks, i + 2, ConfigView { headers: c.headers.push(h), ..c }),
                }
            } else {
                fold_args(toks, i + 1, c)
            }
        } else if t == "-I"@ || t == "--head"@ {
            fold_args(toks, i + 1, ConfigView { head_only: true, method: "HEAD"@, ..c })
        } else if t == "-o"@ {
            if more {
                fold_args(toks, i + 2, ConfigView { out_file: Some(toks[i + 1int]), ..c })
            } else {
                fold_args(toks, i + 1, c)
            }
        } else if t == "-L"@ {
            fold_args(toks, i + 1, ConfigView { follow_redirects: true, ..c })
        } else if t == "-s"@ {
            fold_args(toks, i + 1, ConfigView { silent: true, ..c })
        } else if !is_flag(t) && c.url is None {
            fold_args(toks, i + 1, ConfigView { url: Some(t), ..c })
        } else if is_flag(t) {
            Err(ArgErrorView::UnknownOption(t))
        } else {
            fold_args(toks, i + 1, c)
        }
    }
}

pub open spec fn tokens_view(args: Seq<String>) -> Seq<Seq<char>> {
    args.map_values(|s: String| s@)
}

pub open spec fn parse_view(r: Result<RequestConfig, ArgError>) -> Result<ConfigView, ArgErrorView> {
    match r {
        Ok(c) => Ok(c@),
        Err(e) => Err(e@),
    }
}

/// Reads one `-H` value into a header.
pub fn parse_header(raw: &str) -> (r: Result<(String, String), ArgError>)
    ensures
        match r {
            Ok(h) => header_entry(raw@) == Ok::<(Seq<char>, Seq<char>), ArgErrorView>((h.0@, h.1@)),
            Err(e) => header_entry(raw@) == Err::<(Seq<char>, Seq<char>), ArgErrorView>(e@),
        },
{
    let n = raw.unicode_len();
    match find_char(raw, ':') {
        None => Err(ArgError::MissingColon),
        Some(p) => {
            let left = slice_text(raw, 0, p);
            let right = slice_text(raw, p + 1, n);
            let name_text = trim(left.as_str());
            match header_name(name_text.as_str()) {
                None => Err(ArgError::InvalidHeaderName),
                Some(name) => {
                    let value = trim(right.as_str());
                    if header_value_ok(value.as_str()) {
                        Ok((name, value))
                    } else {
                        Err(ArgError::InvalidHeaderValue)
                    }
                },
            }
        },
    }
}

fn new_config() -> (r: RequestConfig)
    ensures
        r@ == initial_config(),
{
    let r = RequestConfig {
        url: None,
        method: "GET".to_owned(),
        form_data: String::new(),
        json_body: None,
        headers: Vec::new(),
        head_only: false,
        out_file: None,
        follow_redirects: false,
        silent: false,
    };
    assert(r@.headers =~= Seq::<(Seq<char>, Seq<char>)>::empty());
    r
}

/// Reads the command-line tokens (the program name left out) into a
/// configuration. Fails with `Usage` when no URL is among them.
pub fn parse_args(args: &Vec<String>) -> (r: Result<RequestConfig, ArgError>)
    ensures
        parse_view(r) == fold_args(tokens_view(args@), 0, initial_config()),
        r matches Ok(c) ==> c.url is Some,
{
    let ghost toks = tokens_view(args@);
    let n = args.len();
    let mut c = new_config();
    let mut i: usize = 0;
    while i < n
        invariant
            n == args@.len(),
            toks == tokens_view(args@),
            i <= n,
            fold_args(toks, 0, initial_config()) == fold_args(toks, i as nat, c@),
        decreases n - i,
    {
        let t = args[i].as_str();
        let more = i + 1 < n;
        assert(toks[i as int] == t@);
        if more {
            assert(toks[i + 1] == args@[i + 1]@);
        }
        if text_eq(t, "-X") {
            if more {
                c.method = to_upper(args[i + 1].as_str());
                i = i + 1;
            }
        } else if text_eq(t, "-d") {
            if more {
                c.form_data = args[i + 1].clone();
                i = i + 1;
            }
        } else if text_eq(t, "--json") {
            if more {
                c.json_body = Some(args[i + 1].clone());
                c.method = "POST".to_owned();
                i = i + 1;
            }
        } else if text_eq(t, "-H") {
            if more {
                match parse_header(args[i + 1].as_str()) {
                    Err(e) => {
                        return Err(e);
                    },
                    Ok(h) => {
                        let ghost old_headers = c@.headers;
                        c.headers.push(h);
                        assert(c@.headers =~= old_headers.push((h.0@, h.1@)));
                    },
                }
                i = i + 1;
            }
        } else if text_eq(t, "-I") || text_eq(t, "--head") {
            c.head_only = true;
            c.method = "HEAD".to_owned();
        } else if text_eq(t, "-o") {
            if more {
                c.out_file = Some(args[i + 1].clone());
                i = i + 1;
            }
        } else if text_eq(t, "-L") {
            c.follow_redirects = true;
        } else if text_eq(t, "-s") {
            c.silent = true;
        } else if !starts_with_dash(t) && c.url.is_none() {
            c.url = Some(args[i].clone());
        } else if starts_with_dash(t) {
            return Err(ArgError::UnknownOption(args[i].clone()));
        }
        i = i + 1;
    }
    if c.url.is_none() {
        return Err(ArgError::Usage);
    }
    Ok(c)
}

/// The literal flags, each distinct from the others and from any text that
/// does not begin with `-`.
pub proof fn lemma_flag_literals()
    ensures
        is_flag("-X"@),
        is_flag("-d"@),
        is_flag("--json"@),
        is_flag("-H"@),
        is_flag("-I"@),
        is_flag("--head"@),
        is_flag("-o"@),
        is_flag("-L"@),
        is_flag("-s"@),
        "-H"@ != "-X"@,
        "-H"@ != "-d"@,
        "-H"@ != "--json"@,
        "--json"@ != "-X"@,
        "--json"@ != "-d"@,
{
    reveal_strlit("-X");
    reveal_strlit("-d");
    reveal_strlit("--json");
    reveal_strlit("-H");
    reveal_strlit("-I");
    reveal_strlit("--head");
    reveal_strlit("-o");
    reveal_strlit("-L");
    reveal_strlit("-s");
    assert("-H"@[1] != "-X"@[1]);
    assert("-H"@[1] != "-d"@[1]);
}

proof fn lemma_step_url(toks: Seq<Seq<char>>, i: nat, c: ConfigView)
    requires
        i < toks.len(),
        !is_flag(toks[i as int]),
        c.url is None,
    ensures
        fold_args(toks, i, c) == fold_args(toks, i + 1, ConfigView { url: Some(toks[i as int]), ..c }),
{
    lemma_flag_literals();
}

pub proof fn lemma_step_json(toks: Seq<Seq<char>>, i: nat, c: ConfigView)
    requires
        i + 1 < toks.len(),
        toks[i as int] == "--json"@,
    ensures
        fold_args(toks, i, c) == fold_args(
            toks,
            i + 2,
            ConfigView { json_body: Some(toks[i + 1int]), method: "POST"@, ..c },
        ),
{
    lemma_flag_literals();
}

proof fn lemma_step_header(toks: Seq<Seq<char>>, i: nat, c: ConfigView, h: (Seq<char>, Seq<char>))
    requires
        i + 1 < toks.len(),
        toks[i as int] == "-H"@,
        header_entry(toks[i + 1int]) == Ok::<(Seq<char>, Seq<char>), ArgErrorView>(h),
    ensures
        fold_args(toks, i, c) == fold_args(toks, i + 2, ConfigView { headers: c.headers.push(h), ..c }),
{
    lemma_flag_literals();
}

/// A configuration is complete once the tokens run out with a URL set.
pub proof fn lemma_step_end(toks: Seq<Seq<char>>, c: ConfigView)
    requires
        c.url is Some,
    ensures
        fold_args(toks, toks.len(), c) == Ok::<ConfigView, ArgErrorView>(c),
{
}

/// The first token that is not a flag becomes the URL.
pub proof fn lemma_first_token_url(toks: Seq<Seq<char>>)
    requires
        toks.len() > 0,
        !is_flag(toks[0]),
    ensures
        fold_args(toks, 0, initial_config()) == fold_args(
            toks,
            1,
            ConfigView { url: Some(toks[0]), ..initial_config() },
        ),
{
    lemma_step_url(toks, 0, initial_config());
}

/// Repeated `-H` options are all kept, in order: headers form a multimap.
#[verifier::rlimit(50)]
pub proof fn lemma_repeated_headers_kept(
    u: Seq<char>,
    h1: Seq<char>,
    h2: Seq<char>,
    a: (Seq<char>, Seq<char>),
    b: (Seq<char>, Seq<char>),
)
    requires
        !is_flag(u),
        header_entry(h1) == Ok::<(Seq<char>, Seq<char>), ArgErrorView>(a),
        header_entry(h2) == Ok::<(Seq<char>, Seq<char>), ArgErrorView>(b),
    ensures
        fold_args(seq![u, "-H"@, h1, "-H"@, h2], 0, initial_config()) matches Ok(c) && c.headers
            == seq![a, b] && c.url == Some(u),
{
    let toks = seq![u, "-H"@, h1, "-H"@, h2];
    assert(toks[0] == u && toks[1] == "-H"@ && toks[2] == h1 && toks[3] == "-H"@ && toks[4] == h2);
    let c0 = initial_config();
    let c1 = ConfigView { url: Some(u), ..c0 };
    let c2 = ConfigView { headers: c1.headers.push(a), ..c1 };
    let c3 = ConfigView { headers: c2.headers.push(b), ..c2 };
    lemma_first_token_url(toks);
    lemma_step_header(toks, 1, c1, a);
    lemma_step_header(toks, 3, c2, b);
    lemma_step_end(toks, c3);
    assert(c3.headers =~= seq![a, b]);
}

} // verus!
