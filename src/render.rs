//! The response renderer: from a response and the configuration, the one
//! output that is due, as lines of text and an optional file to write.

use vstd::prelude::*;
use crate::args::{ConfigView, RequestConfig};
use crate::outside::{
    pairs_view,
    JsonDoc, JsonShape, doc_view, header_value_text, json_shape, json_shape_of, lossy_text_of,
    utf8_lossy, visible_ascii,
};
use crate::request::{labelled, lines_view};
use crate::text::{
    decimal, decimal_of, lemma_text_lt_irreflexive, lemma_text_lt_transitive, text_less, text_lt,
};

verus! {

/// What the transport brought back.
pub struct ParsedResponse {
    pub status: u16,
    /// Header names and raw values, in the order received.
    pub headers: Vec<(String, Vec<u8>)>,
    pub body: Vec<u8>,
}

pub ghost struct ResponseView {
    pub status: u16,
    pub headers: Seq<(Seq<char>, Seq<u8>)>,
    pub body: Seq<u8>,
}

impl ParsedResponse {
    pub open spec fn view(&self) -> ResponseView {
        ResponseView {
            status: self.status,
            headers: self.headers@.map_values(|h: (String, Vec<u8>)| (h.0@, h.1@)),
            body: self.body@,
        }
    }
}

/// The output that is due.
pub enum Rendering {
    /// Print these lines.
    Lines(Vec<String>),
    /// Write these bytes to the file at `path`, then print `lines`.
    SaveBody { path: String, bytes: Vec<u8>, lines: Vec<String> },
}

pub ghost enum RenderingView {
    Lines(Seq<Seq<char>>),
    SaveBody { path: Seq<char>, bytes: Seq<u8>, lines: Seq<Seq<char>> },
}

impl Rendering {
    pub open spec fn view(&self) -> RenderingView {
        match self {
            Rendering::Lines(l) => RenderingView::Lines(lines_view(l@)),
            Rendering::SaveBody { path, bytes, lines } => RenderingView::SaveBody {
                path: path@,
                bytes: bytes@,
                lines: lines_view(lines@),
            },
        }
    }
}

/// The text of a header value: as received when it is visible ASCII,
/// else a placeholder.
pub open spec fn header_value_shown(v: Seq<u8>) -> Seq<char> {
    if forall|i: int| 0 <= i < v.len() ==> visible_ascii(#[trigger] v[i]) {
        v.map_values(|b: u8| b as char)
    } else {
        "<binary>"@
    }
}

pub open spec fn header_lines(hs: Seq<(Seq<char>, Seq<u8>)>) -> Seq<Seq<char>> {
    hs.map_values(|h: (Seq<char>, Seq<u8>)| h.0 + ": "@ + header_value_shown(h.1))
}

/// Inserts a member before the first member whose key is greater.
pub open spec fn insert_sorted(x: (Seq<char>, Seq<char>), s: Seq<(Seq<char>, Seq<char>)>) -> Seq<
    (Seq<char>, Seq<char>),
>
    decreases s.len(),
{
    if s.len() == 0 {
        seq![x]
    } else if text_lt(x.0, s[0].0) {
        seq![x] + s
    } else {
        seq![s[0]] + insert_sorted(x, s.drop_first())
    }
}

/// The members ordered by key, members with equal keys kept in order.
pub open spec fn sort_members(s: Seq<(Seq<char>, Seq<char>)>) -> Seq<(Seq<char>, Seq<char>)>
    decreases s.len(),
{
    if s.len() == 0 {
        s
    } else {
        insert_sorted(s.last(), sort_members(s.drop_last()))
    }
}

pub open spec fn member_line(m: (Seq<char>, Seq<char>), last: bool) -> Seq<char> {
    "  \""@ + m.0 + "\": "@ + m.1 + if last {
        Seq::<char>::empty()
    } else {
        ","@
    }
}

pub open spec fn member_lines(s: Seq<(Seq<char>, Seq<char>)>) -> Seq<Seq<char>> {
    Seq::new(s.len(), |i: int| member_line(s[i], i == s.len() - 1))
}

pub open spec fn announce(silent: bool, line: Seq<char>) -> Seq<Seq<char>> {
    if silent {
        Seq::empty()
    } else {
        seq![line]
    }
}

/// The lines for a successful body shown on the console, given what it
/// parsed to as JSON.
pub open spec fn body_lines(text: Seq<char>, shape: Option<JsonShape>, silent: bool) -> Seq<
    Seq<char>,
> {
    match shape {
        Some(JsonShape::Object(ms)) => announce(silent, "Response body (JSON with sorted keys):"@)
            + seq!["{"@] + member_lines(sort_members(ms)) + seq!["}"@],
        Some(JsonShape::Other(p)) => announce(silent, "Response body (JSON with sorted keys):"@)
            + seq![p],
        None => announce(silent, "Response body:"@) + seq![text],
    }
}

pub open spec fn status_is_success(status: u16) -> bool {
    200 <= status <= 299
}

/// The output due for a response under a configuration.
pub open spec fn render_spec(c: ConfigView, r: ResponseView) -> RenderingView {
    if c.head_only {
        RenderingView::Lines(header_lines(r.headers))
    } else if !status_is_success(r.status) {
        RenderingView::Lines(
            seq!["Error: Request failed with status code: "@ + decimal_of(r.status as nat) + "."@],
        )
    } else {
        match c.out_file {
            Some(p) => RenderingView::SaveBody {
                path: p,
                bytes: r.body,
                lines: announce(c.silent, "Saved body to "@ + p),
            },
            None => {
                let text = lossy_text_of(r.body);
                RenderingView::Lines(body_lines(text, json_shape_of(text), c.silent))
            },
        }
    }
}

fn shown_value(v: &Vec<u8>) -> (r: String)
    ensures
        r@ == header_value_shown(v@),
{
    match header_value_text(v.as_slice()) {
        Some(t) => t,
        None => "<binary>".to_owned(),
    }
}

/// One line per header, `Name: Value`, in the order received.
pub fn render_headers(hs: &Vec<(String, Vec<u8>)>) -> (r: Vec<String>)
    ensures
        lines_view(r@) == header_lines(hs@.map_values(|h: (String, Vec<u8>)| (h.0@, h.1@))),
{
    let ghost hv = hs@.map_values(|h: (String, Vec<u8>)| (h.0@, h.1@));
    let mut out: Vec<String> = Vec::new();
    let mut i: usize = 0;
    while i < hs.len()
        invariant
            i <= hs@.len(),
            hv == hs@.map_values(|h: (String, Vec<u8>)| (h.0@, h.1@)),
            lines_view(out@) =~= header_lines(hv).subrange(0, i as int),
        decreases hs@.len() - i,
    {
        let mut line = labelled(hs[i].0.as_str(), ": ");
        let v = shown_value(&hs[i].1);
        line.append(v.as_str());
        let ghost prev = out@;
        out.push(line);
        assert(lines_view(out@) =~= lines_view(prev).push(line@));
        assert(header_lines(hv).subrange(0, i + 1) =~= header_lines(hv).subrange(0, i as int).push(
            line@,
        ));
        i = i + 1;
    }
    assert(header_lines(hv).subrange(0, hs@.len() as int) =~= header_lines(hv));
    out
}

proof fn lemma_insert_at(x: (Seq<char>, Seq<char>), s: Seq<(Seq<char>, Seq<char>)>, p: int)
    requires
        0 <= p <= s.len(),
        forall|j: int| 0 <= j < p ==> !text_lt(x.0, #[trigger] s[j].0),
        p < s.len() ==> text_lt(x.0, s[p].0),
    ensures
        insert_sorted(x, s) == s.insert(p, x),
    decreases s.len(),
{
    if s.len() == 0 {
        assert(seq![x] =~= s.insert(0, x));
    } else if p == 0 {
        assert(seq![x] + s =~= s.insert(0, x));
    } else {
        let t = s.drop_first();
        assert forall|j: int| 0 <= j < p - 1 implies !text_lt(x.0, #[trigger] t[j].0) by {
            assert(t[j] == s[j + 1]);
        }
        lemma_insert_at(x, t, p - 1);
        assert(seq![s[0]] + t.insert(p - 1, x) =~= s.insert(p, x));
    }
}

fn insert_member(out: &mut Vec<(String, String)>, x: (String, String))
    ensures
        pairs_view(final(out)@) == insert_sorted((x.0@, x.1@), pairs_view(old(out)@)),
{
    let ghost s = pairs_view(out@);
    let ghost xv = (x.0@, x.1@);
    let mut p: usize = 0;
    let mut found = false;
    while p < out.len() && !found
        invariant
            s == pairs_view(out@),
            xv == (x.0@, x.1@),
            p <= out@.len(),
            forall|j: int| 0 <= j < p ==> !text_lt(xv.0, #[trigger] s[j].0),
            found ==> p < s.len() && text_lt(xv.0, s[p as int].0),
        decreases out@.len() - p + if found { 0int } else { 1 },
    {
        let key = out[p].0.as_str();
        let xk = x.0.as_str();
        assert(xk@ == xv.0);
        let lt = text_less(xk, key);
        assert(key@ == s[p as int].0);
        assert(lt == text_lt(xv.0, s[p as int].0));
        if lt {
            found = true;
        } else {
            p = p + 1;
        }
    }
    proof {
        lemma_insert_at(xv, s, p as int);
    }
    out.insert(p, x);
    assert(pairs_view(out@) =~= s.insert(p as int, xv));
}

/// The members ordered by key; members with equal keys keep their order.
pub fn sort_members_by_key(ms: &Vec<(String, String)>) -> (r: Vec<(String, String)>)
    ensures
        pairs_view(r@) == sort_members(pairs_view(ms@)),
{
    let ghost s = pairs_view(ms@);
    let mut out: Vec<(String, String)> = Vec::new();
    assert(s.subrange(0, 0) =~= Seq::<(Seq<char>, Seq<char>)>::empty());
    let mut i: usize = 0;
    while i < ms.len()
        invariant
            s == pairs_view(ms@),
            i <= ms@.len(),
            pairs_view(out@) == sort_members(s.subrange(0, i as int)),
        decreases ms@.len() - i,
    {
        let x = (ms[i].0.clone(), ms[i].1.clone());
        proof {
            assert(s.subrange(0, i + 1).drop_last() =~= s.subrange(0, i as int));
            assert(s.subrange(0, i + 1).last() == s[i as int]);
        }
        insert_member(&mut out, x);
        i = i + 1;
    }
    assert(s.subrange(0, ms@.len() as int) =~= s);
    out
}

/// One line per member, `  "key": value`, each but the last followed by a
/// comma.
pub fn render_members(ms: &Vec<(String, String)>) -> (r: Vec<String>)
    ensures
        lines_view(r@) == member_lines(pairs_view(ms@)),
{
    let ghost s = pairs_view(ms@);
    let n = ms.len();
    let mut out: Vec<String> = Vec::new();
    let mut i: usize = 0;
    while i < n
        invariant
            s == pairs_view(ms@),
            n == ms@.len(),
            i <= n,
            lines_view(out@) =~= member_lines(s).subrange(0, i as int),
        decreases n - i,
    {
        let mut line = labelled("  \"", ms[i].0.as_str());
        line.append("\": ");
        line.append(ms[i].1.as_str());
        if i + 1 < n {
            line.append(",");
        }
        assert(line@ =~= member_line(s[i as int], i == n - 1));
        let ghost prev = out@;
        out.push(line);
        assert(lines_view(out@) =~= lines_view(prev).push(line@));
        assert(member_lines(s).subrange(0, i + 1) =~= member_lines(s).subrange(0, i as int).push(
            line@,
        ));
        i = i + 1;
    }
    assert(member_lines(s).subrange(0, n as int) =~= member_lines(s));
    out
}

fn announce_into(out: &mut Vec<String>, silent: bool, line: &str)
    ensures
        lines_view(final(out)@) == lines_view(old(out)@) + announce(silent, line@),
{
    let ghost prev = out@;
    if !silent {
        out.push(line.to_owned());
    }
    assert(lines_view(out@) =~= lines_view(prev) + announce(silent, line@));
}

fn push_line(out: &mut Vec<String>, line: String)
    ensures
        lines_view(final(out)@) == lines_view(old(out)@).push(line@),
{
    let ghost prev = out@;
    out.push(line);
    assert(lines_view(out@) =~= lines_view(prev).push(line@));
}

/// The console lines for a successful body, given what the body text parsed
/// to as JSON (`None` when it is not JSON): a top-level object with its keys
/// sorted, any other JSON value pretty-printed, anything else verbatim.
pub fn render_body(text: &str, doc: Option<JsonDoc>, silent: bool) -> (r: Vec<String>)
    ensures
        lines_view(r@) == body_lines(text@, doc_view(doc), silent),
{
    let mut out: Vec<String> = Vec::new();
    match doc {
        Some(JsonDoc::Object(ms)) => {
            announce_into(&mut out, silent, "Response body (JSON with sorted keys):");
            push_line(&mut out, "{".to_owned());
            let sorted = sort_members_by_key(&ms);
            let lines = render_members(&sorted);
            let ghost before = out@;
            let mut i: usize = 0;
            while i < lines.len()
                invariant
                    i <= lines@.len(),
                    lines_view(out@) == lines_view(before) + lines_view(lines@).subrange(0, i as int),
                decreases lines@.len() - i,
            {
                let ghost prev = out@;
                push_line(&mut out, lines[i].clone());
                assert(lines_view(lines@).subrange(0, i + 1) =~= lines_view(lines@).subrange(
                    0,
                    i as int,
                ).push(lines@[i as int]@));
                i = i + 1;
            }
            assert(lines_view(lines@).subrange(0, lines@.len() as int) =~= lines_view(lines@));
            push_line(&mut out, "}".to_owned());
            assert(lines_view(out@) =~= body_lines(text@, doc_view(Some(JsonDoc::Object(ms))), silent));
        },
        Some(JsonDoc::Other(p)) => {
            announce_into(&mut out, silent, "Response body (JSON with sorted keys):");
            let ghost pv = p@;
            push_line(&mut out, p);
            assert(lines_view(out@) =~= announce(silent, "Response body (JSON with sorted keys):"@)
                + seq![pv]);
        },
        None => {
            announce_into(&mut out, silent, "Response body:");
            push_line(&mut out, text.to_owned());
            assert(lines_view(out@) =~= announce(silent, "Response body:"@) + seq![text@]);
        },
    }
    out
}

/// Decides and prepares the one output due for a response: its headers in
/// head-only mode (whatever the status), else an error line for a status
/// outside 200 to 299, else the body for the output file or the console.
pub fn render_response(c: &RequestConfig, resp: &ParsedResponse) -> (r: Rendering)
    ensures
        r@ == render_spec(c@, resp@),
{
    if c.head_only {
        return Rendering::Lines(render_headers(&resp.headers));
    }
    if !(200 <= resp.status && resp.status <= 299) {
        let mut line = labelled("Error: Request failed with status code: ", decimal(resp.status as u64).as_str());
        line.append(".");
        let mut out: Vec<String> = Vec::new();
        push_line(&mut out, line);
        assert(lines_view(out@) =~= seq![
            "Error: Request failed with status code: "@ + decimal_of(resp.status as nat) + "."@
        ]);
        return Rendering::Lines(out);
    }
    match &c.out_file {
        Some(p) => {
            let mut lines: Vec<String> = Vec::new();
            let confirm = labelled("Saved body to ", p.as_str());
            announce_into(&mut lines, c.silent, confirm.as_str());
            assert(lines_view(lines@) =~= announce(c.silent, "Saved body to "@ + p@));
            Rendering::SaveBody { path: p.clone(), bytes: resp.body.clone(), lines }
        },
        None => {
            let text = utf8_lossy(resp.body.as_slice());
            let doc = json_shape(text.as_str());
            Rendering::Lines(render_body(text.as_str(), doc, c.silent))
        },
    }
}

/// Whether no member's key is smaller than an earlier member's key.
pub open spec fn keys_ordered(s: Seq<(Seq<char>, Seq<char>)>) -> bool {
    forall|i: int, j: int| 0 <= i < j < s.len() ==> !text_lt(#[trigger] s[j].0, #[trigger] s[i].0)
}

proof fn lemma_insert_sorted_ordered(x: (Seq<char>, Seq<char>), s: Seq<(Seq<char>, Seq<char>)>)
    requires
        keys_ordered(s),
    ensures
        keys_ordered(insert_sorted(x, s)),
        insert_sorted(x, s).len() == s.len() + 1,
        forall|k: int|
            0 <= k < s.len() + 1 ==> #[trigger] insert_sorted(x, s)[k] == x || s.contains(
                insert_sorted(x, s)[k],
            ),
    decreases s.len(),
{
    let r = insert_sorted(x, s);
    if s.len() == 0 {
    } else if text_lt(x.0, s[0].0) {
        assert forall|i: int, j: int| 0 <= i < j < r.len() implies !text_lt(
            #[trigger] r[j].0,
            #[trigger] r[i].0,
        ) by {
            if i == 0 {
                if text_lt(r[j].0, x.0) {
                    if j == 1 {
                        lemma_text_lt_transitive(s[0].0, x.0, s[0].0);
                        lemma_text_lt_irreflexive(s[0].0);
                    } else {
                        lemma_text_lt_transitive(s[j - 1].0, x.0, s[0].0);
                        assert(!text_lt(s[j - 1].0, s[0].0));
                    }
                }
            } else {
                assert(r[i] == s[i - 1] && r[j] == s[j - 1]);
            }
        }
        assert forall|k: int| 0 <= k < s.len() + 1 implies #[trigger] r[k] == x || s.contains(
            r[k],
        ) by {
            if k > 0 {
                assert(r[k] == s[k - 1]);
            }
        }
    } else {
        let t = s.drop_first();
        assert forall|i: int, j: int| 0 <= i < j < t.len() implies !text_lt(
            #[trigger] t[j].0,
            #[trigger] t[i].0,
        ) by {
            assert(t[i] == s[i + 1] && t[j] == s[j + 1]);
        }
        lemma_insert_sorted_ordered(x, t);
        let u = insert_sorted(x, t);
        assert(r == seq![s[0]] + u);
        assert forall|k: int| 0 <= k < s.len() + 1 implies #[trigger] r[k] == x || s.contains(
            r[k],
        ) by {
            if k == 0 {
                assert(s[0] == r[0]);
            } else {
                assert(r[k] == u[k - 1]);
                if u[k - 1] != x {
                    let m = choose|m: int| 0 <= m < t.len() && t[m] == u[k - 1];
                    assert(s[m + 1] == r[k]);
                }
            }
        }
        assert forall|i: int, j: int| 0 <= i < j < r.len() implies !text_lt(
            #[trigger] r[j].0,
            #[trigger] r[i].0,
        ) by {
            if i == 0 {
                assert(r[j] == u[j - 1]);
                if u[j - 1] != x {
                    let m = choose|m: int| 0 <= m < t.len() && t[m] == u[j - 1];
                    assert(t[m] == s[m + 1]);
                }
            } else {
                assert(r[i] == u[i - 1] && r[j] == u[j - 1]);
            }
        }
    }
}

/// The members of a rendered object come out ordered by key: as many as
/// went in, each one of the members given.
pub proof fn lemma_members_sorted(s: Seq<(Seq<char>, Seq<char>)>)
    ensures
        keys_ordered(sort_members(s)),
        sort_members(s).len() == s.len(),
        forall|k: int| 0 <= k < s.len() ==> s.contains(#[trigger] sort_members(s)[k]),
    decreases s.len(),
{
    if s.len() > 0 {
        let d = s.drop_last();
        lemma_members_sorted(d);
        lemma_insert_sorted_ordered(s.last(), sort_members(d));
        assert forall|k: int| 0 <= k < s.len() implies s.contains(#[trigger] sort_members(s)[k]) by {
            let e = sort_members(s)[k];
            if e == s.last() {
                assert(s[s.len() - 1] == e);
            } else {
                assert(sort_members(d).contains(e));
                let m = choose|m: int| 0 <= m < sort_members(d).len() && sort_members(d)[m] == e;
                assert(d.contains(sort_members(d)[m]));
                let n = choose|n: int| 0 <= n < d.len() && d[n] == e;
                assert(s[n] == e);
            }
        }
    }
}

/// In head-only mode the headers are shown, one line each in the order
/// received, whatever the status: the status check is never reached.
pub proof fn lemma_head_only_shows_headers(c: ConfigView, r: ResponseView)
    requires
        c.head_only,
    ensures
        render_spec(c, r) == RenderingView::Lines(header_lines(r.headers)),
        header_lines(r.headers).len() == r.headers.len(),
{
}

/// With an output file and a successful status, exactly the body's bytes
/// go to that file, and the confirmation names the path unless silent.
pub proof fn lemma_saved_body_is_exact(c: ConfigView, r: ResponseView, path: Seq<char>)
    requires
        !c.head_only,
        status_is_success(r.status),
        c.out_file == Some(path),
    ensures
        render_spec(c, r) == (RenderingView::SaveBody {
            path: path,
            bytes: r.body,
            lines: announce(c.silent, "Saved body to "@ + path),
        }),
{
}

/// Rendering depends on the response and the configuration alone: the
/// same response rendered twice gives the same output.
pub proof fn lemma_render_repeatable(c1: ConfigView, c2: ConfigView, r1: ResponseView, r2: ResponseView)
    requires
        c1 == c2,
        r1 == r2,
    ensures
        render_spec(c1, r1) == render_spec(c2, r2),
{
}

} // verus!
