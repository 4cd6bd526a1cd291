//! Requests: messages whose start line names a method and a target.

use vstd::prelude::*;

use vstd::utf8::{decode_utf8, valid_utf8};

use crate::buffer::{header_value, parse_message, text_of_bytes, Buffer, BufferView};
use crate::response::content_type;
use crate::status::Status;
use crate::store::PayloadFormat;
use crate::error::{Error, ErrorKind};
use crate::http::{Method, StartLine, StartView};
use crate::text::{
    chars_of, eq_ignore_ascii_case, eq_ignore_case, find_in, first_index, index_of,
    lemma_first_index_at, lemma_first_index_none, lemma_index_of_at, lemma_index_of_none, split,
    join, lemma_join_push, line_spans, lines, split_spans, span_text, trim, trim_bounds,
};

verus! {

pub type ParamView = (Seq<char>, Option<Seq<char>>);

/// The target of a request start line.
pub open spec fn target_of(st: StartView) -> Option<Seq<char>> {
    match st {
        StartView::Request { target, .. } => Some(target),
        StartView::Response { .. } => None,
    }
}

/// The part of a target before the first `?`, or the whole target.
pub open spec fn path_of(t: Seq<char>) -> Seq<char> {
    let q = index_of(t, '?');
    if q < 0 {
        t
    } else {
        t.take(q)
    }
}

/// The part of a target after the first `?`, if it has one.
pub open spec fn query_of(t: Seq<char>) -> Option<Seq<char>> {
    let q = index_of(t, '?');
    if q < 0 {
        None
    } else {
        Some(t.skip(q + 1))
    }
}

/// One query segment: a key and, after the first `=`, a value.
pub open spec fn param_of(seg: Seq<char>) -> ParamView {
    let e = index_of(seg, '=');
    if e < 0 {
        (seg, None)
    } else {
        (seg.take(e), Some(seg.skip(e + 1)))
    }
}

/// The parameters of a query: its `&`-separated segments.
pub open spec fn params_of(q: Seq<char>) -> Seq<ParamView> {
    split(q, '&').map_values(|s: Seq<char>| param_of(s))
}

/// The parameters of a request start line; none without a query.
pub open spec fn request_params(st: StartView) -> Seq<ParamView> {
    match target_of(st) {
        Some(t) => match query_of(t) {
            Some(q) => params_of(q),
            None => seq![],
        },
        None => seq![],
    }
}

pub open spec fn param_view(p: (String, Option<String>)) -> ParamView {
    (
        p.0@,
        match p.1 {
            Some(v) => Some(v@),
            None => None,
        },
    )
}

/// Position of the first parameter keyed `k`, letter case aside; -1 if none.
pub open spec fn param_index(ps: Seq<ParamView>, k: Seq<char>) -> int {
    first_index(ps, |p: ParamView| eq_ignore_case(p.0, k))
}

pub open spec fn json_type() -> Seq<char> {
    seq!['a', 'p', 'p', 'l', 'i', 'c', 'a', 't', 'i', 'o', 'n', '/', 'j', 's', 'o', 'n']
}

pub open spec fn toml_type() -> Seq<char> {
    seq!['a', 'p', 'p', 'l', 'i', 'c', 'a', 't', 'i', 'o', 'n', '/', 't', 'o', 'm', 'l']
}

pub open spec fn yaml_type() -> Seq<char> {
    seq!['a', 'p', 'p', 'l', 'i', 'c', 'a', 't', 'i', 'o', 'n', '/', 'y', 'a', 'm', 'l']
}

/// The payload format a `Content-Type` names, letter case aside.
pub open spec fn format_of(ct: Seq<char>) -> Option<PayloadFormat> {
    if eq_ignore_case(ct, json_type()) {
        Some(PayloadFormat::Json)
    } else if eq_ignore_case(ct, toml_type()) {
        Some(PayloadFormat::Toml)
    } else if eq_ignore_case(ct, yaml_type()) {
        Some(PayloadFormat::Yaml)
    } else {
        None
    }
}

/// The mark that points at a place in a body: a red arrow and `here`.
pub open spec fn pointer_mark() -> Seq<char> {
    "\x1b[0;31m⮬\x1b[0m \x1b[1mhere\x1b[0m"@
}

/// The pointer line for a 1-based `column`: the mark under that column.
pub open spec fn pointer_line(column: nat) -> Seq<char> {
    Seq::new(if column > 0 { (column - 1) as nat } else { 0 }, |i: int| ' ') + pointer_mark()
}

/// A body with a pointer line inserted after its 1-based `line` (after its
/// last line if it has fewer), pointing at `column`.
pub open spec fn pointed_text(body: Seq<char>, line: nat, column: nat) -> Seq<char> {
    let ls = lines(body);
    let at = if line < ls.len() { line as int } else { ls.len() as int };
    join(ls.insert(at, pointer_line(column)), '\n')
}

/// The body with a line that points at the place a decoder stopped: under
/// 1-based `line` and `column`, as decoders report them.
pub fn pointed_body(body: &str, line: usize, column: usize) -> (r: String)
    ensures
        r@ == pointed_text(body@, line as nat, column as nat),
{
    let mark = "\x1b[0;31m⮬\x1b[0m \x1b[1mhere\x1b[0m";
    let mut pointer = String::new();
    let spaces: usize = if column > 0 { column - 1 } else { 0 };
    let mut c: usize = 0;
    proof {
        reveal_strlit(" ");
    }
    while c < spaces
        invariant
            c <= spaces,
            pointer@ == Seq::new(c as nat, |i: int| ' '),
        decreases spaces - c,
    {
        proof {
            reveal_strlit(" ");
        }
        pointer.append(" ");
        c += 1;
        assert(pointer@ =~= Seq::new(c as nat, |i: int| ' '));
    }
    pointer.append(mark);
    assert(pointer@ == pointer_line(column as nat));
    let v = chars_of(body);
    let ls = line_spans(v.as_slice());
    let ghost lv = lines(body@);
    let n = ls.len();
    let at = if line < n { line } else { n };
    let ghost ins = lv.insert(at as int, pointer@);
    let mut out = String::new();
    let mut k: usize = 0;
    assert(out@ =~= join(ins.take(0), '\n'));
    while k < at
        invariant
            k <= at <= n,
            n == ls@.len(),
            ls@.len() == lv.len(),
            v@ == body@,
            ins == lv.insert(at as int, pointer@),
            forall|q: int| 0 <= q < ls@.len() ==> #[trigger] span_text(v@, ls@[q]) == lv[q],
            forall|q: int| 0 <= q < ls@.len() ==> (#[trigger] ls@[q]).0 <= ls@[q].1 <= v@.len(),
            out@ == join(ins.take(k as int), '\n'),
        decreases at - k,
    {
        let ghost prev = ins.take(k as int);
        if k > 0 {
            proof {
                reveal_strlit("\n");
            }
            out.append("\n");
        }
        let (a, b) = ls[k];
        assert(span_text(v@, ls@[k as int]) == lv[k as int]);
        out.append(body.substring_char(a, b));
        proof {
            lemma_join_push(prev, ins[k as int], '\n');
            assert(ins.take(k + 1) =~= prev.push(ins[k as int]));
        }
        k += 1;
    }
    let ghost before = ins.take(at as int);
    if at > 0 {
        proof {
            reveal_strlit("\n");
        }
        out.append("\n");
    }
    out.append(pointer.as_str());
    proof {
        lemma_join_push(before, ins[at as int], '\n');
        assert(ins.take(at + 1) =~= before.push(ins[at as int]));
    }
    while k < n
        invariant
            at <= k <= n,
            n == ls@.len(),
            ls@.len() == lv.len(),
            v@ == body@,
            ins == lv.insert(at as int, pointer@),
            forall|q: int| 0 <= q < ls@.len() ==> #[trigger] span_text(v@, ls@[q]) == lv[q],
            forall|q: int| 0 <= q < ls@.len() ==> (#[trigger] ls@[q]).0 <= ls@[q].1 <= v@.len(),
            out@ == join(ins.take(k + 1), '\n'),
        decreases n - k,
    {
        let ghost prev = ins.take(k + 1);
        proof {
            reveal_strlit("\n");
        }
        out.append("\n");
        let (a, b) = ls[k];
        assert(span_text(v@, ls@[k as int]) == lv[k as int]);
        assert(ins[k + 1] == lv[k as int]);
        out.append(body.substring_char(a, b));
        proof {
            lemma_join_push(prev, ins[k + 1], '\n');
            assert(ins.take(k + 2) =~= prev.push(ins[k + 1]));
        }
        k += 1;
    }
    assert(ins.take(k + 1) =~= ins);
    out
}

/// A request.
#[derive(Clone, Debug)]
pub struct Request(Buffer);

impl View for Request {
    type V = BufferView;

    closed spec fn view(&self) -> BufferView {
        self.0@
    }
}

/// The target's characters, and the position of its first `?` (or its length).
fn split_target(t: &str) -> (r: (Vec<char>, usize))
    ensures
        r.0@ == t@,
        r.1 <= t@.len(),
        r.1 < t@.len() ==> index_of(t@, '?') == r.1,
        r.1 == t@.len() ==> index_of(t@, '?') < 0,
{
    let v = chars_of(t);
    let q = find_in(v.as_slice(), 0, v.len(), '?');
    proof {
        if q < v@.len() {
            assert(v@.take(q as int) =~= v@.subrange(0, q as int));
            lemma_index_of_at(v@, '?', q as int);
        } else {
            assert(v@ =~= v@.subrange(0, q as int));
            lemma_index_of_none(v@, '?');
        }
    }
    (v, q)
}

impl core::ops::Deref for Request {
    type Target = Buffer;

    fn deref(&self) -> &Buffer {
        &self.0
    }
}

impl core::ops::DerefMut for Request {
    fn deref_mut(&mut self) -> &mut Buffer {
        &mut self.0
    }
}

impl Request {
    pub fn new(b: Buffer) -> (r: Self)
        ensures
            r@ == b@,
    {
        Request(b)
    }

    pub fn buffer(&self) -> (r: &Buffer)
        ensures
            r@ == self@,
    {
        &self.0
    }

    /// Reads a request from the bytes received; they must be UTF-8 text.
    pub fn from_bytes(b: &[u8]) -> (r: Result<Self, Error>)
        ensures
            !valid_utf8(b@) ==> (r matches Err(e) && e.spec_kind() == ErrorKind::IO),
            valid_utf8(b@) ==> match r {
                Ok(req) => parse_message(decode_utf8(b@)) == Ok::<BufferView, ErrorKind>(req@),
                Err(e) => parse_message(decode_utf8(b@)) == Err::<BufferView, ErrorKind>(e.spec_kind()),
            },
    {
        let s = match text_of_bytes(b) {
            Some(s) => s,
            None => {
                return Err(Error::with_message(ErrorKind::IO, "request is not valid UTF-8"));
            },
        };
        match Buffer::parse(s.as_str()) {
            Ok(buf) => Ok(Request(buf)),
            Err(e) => Err(e),
        }
    }

    pub fn method(&self) -> (r: Option<Method>)
        ensures
            r == match self@.start {
                StartView::Request { method, .. } => Some(method),
                StartView::Response { .. } => None::<Method>,
            },
    {
        match self.0.start_line() {
            StartLine::Request(x) => Some(x.method),
            StartLine::Response(_) => None,
        }
    }

    /// The target up to its first `?`; none if this is not a request line.
    pub fn path(&self) -> (r: Option<&str>)
        ensures
            match r {
                Some(p) => target_of(self@.start) matches Some(t) && p@ == path_of(t),
                None => target_of(self@.start) is None,
            },
    {
        match self.0.start_line() {
            StartLine::Request(x) => {
                let t = x.target.as_str();
                let (v, q) = split_target(t);
                Some(t.substring_char(0, q))
            },
            StartLine::Response(_) => None,
        }
    }

    /// The target after its first `?`, if there is one.
    pub fn query(&self) -> (r: Option<&str>)
        ensures
            match r {
                Some(q) => target_of(self@.start) matches Some(t) && query_of(t) == Some(q@),
                None => target_of(self@.start) is None || query_of(target_of(self@.start)->0) is None,
            },
    {
        match self.0.start_line() {
            StartLine::Request(x) => {
                let t = x.target.as_str();
                let (v, q) = split_target(t);
                if q == v.len() {
                    None
                } else {
                    Some(t.substring_char(q + 1, v.len()))
                }
            },
            StartLine::Response(_) => None,
        }
    }

    /// The query parameters, in order.
    pub fn query_params(&self) -> (r: Vec<(String, Option<String>)>)
        ensures
            r@.map_values(|p: (String, Option<String>)| param_view(p)) == request_params(self@.start),
    {
        let mut out: Vec<(String, Option<String>)> = Vec::new();
        let x = match self.0.start_line() {
            StartLine::Request(x) => x,
            StartLine::Response(_) => {
                assert(out@.map_values(|p: (String, Option<String>)| param_view(p)) =~= Seq::<ParamView>::empty());
                return out;
            },
        };
        let t = x.target.as_str();
        let (v, q) = split_target(t);
        if q == v.len() {
            assert(out@.map_values(|p: (String, Option<String>)| param_view(p)) =~= Seq::<ParamView>::empty());
            return out;
        }
        let ghost query = t@.skip(q + 1);
        assert(query =~= v@.subrange(q + 1, v@.len() as int));
        let spans = split_spans(v.as_slice(), q + 1, v.len(), '&');
        let ghost segs = split(query, '&');
        let mut i: usize = 0;
        while i < spans.len()
            invariant
                i <= spans@.len(),
                spans@.len() == segs.len(),
                v@ == t@,
                q + 1 <= v@.len(),
                segs == split(v@.subrange(q + 1, v@.len() as int), '&'),
                forall|k: int|
                    0 <= k < spans@.len() ==> q + 1 <= (#[trigger] spans@[k]).0 <= spans@[k].1 <= v@.len()
                        && span_text(v@, spans@[k]) == segs[k],
                out@.map_values(|p: (String, Option<String>)| param_view(p)) =~= segs.take(i as int).map_values(
                    |s: Seq<char>| param_of(s),
                ),
            decreases spans@.len() - i,
        {
            let (a, b) = spans[i];
            let ghost seg = segs[i as int];
            assert(span_text(v@, spans@[i as int]) == seg);
            let e = find_in(v.as_slice(), a, b, '=');
            let item = if e == b {
                proof {
                    assert(v@.subrange(a as int, e as int) == seg);
                    lemma_index_of_none(seg, '=');
                }
                (String::from_str(t.substring_char(a, b)), None)
            } else {
                proof {
                    assert(seg.take(e - a) =~= v@.subrange(a as int, e as int));
                    assert(seg[e - a] == v@[e as int]);
                    lemma_index_of_at(seg, '=', e - a);
                    assert(seg.skip(e - a + 1) =~= v@.subrange(e + 1, b as int));
                }
                (String::from_str(t.substring_char(a, e)), Some(String::from_str(t.substring_char(e + 1, b))))
            };
            assert(param_view(item) == param_of(seg));
            let ghost prev = out@;
            out.push(item);
            proof {
                assert(segs.take(i + 1) =~= segs.take(i as int).push(seg));
                assert(out@ =~= prev.push(item));
                assert(out@.map_values(|p: (String, Option<String>)| param_view(p)) =~= prev.map_values(
                    |p: (String, Option<String>)| param_view(p),
                ).push(param_view(item)));
            }
            i += 1;
        }
        assert(segs.take(i as int) =~= segs);
        out
    }

    /// The first query parameter keyed `k`, letter case aside.
    pub fn query_param(&self, k: &str) -> (r: Option<(String, Option<String>)>)
        ensures
            ({
                let ps = request_params(self@.start);
                let i = param_index(ps, k@);
                match r {
                    Some(p) => 0 <= i < ps.len() && param_view(p) == ps[i],
                    None => i < 0,
                }
            }),
    {
        let ps = self.query_params();
        let ghost pv = request_params(self@.start);
        let ghost pr = |p: ParamView| eq_ignore_case(p.0, k@);
        let mut i: usize = 0;
        while i < ps.len()
            invariant
                i <= ps@.len(),
                ps@.map_values(|p: (String, Option<String>)| param_view(p)) == pv,
                pv == request_params(self@.start),
                pr == (|p: ParamView| eq_ignore_case(p.0, k@)),
                forall|j: int| 0 <= j < i ==> !pr(#[trigger] pv[j]),
            decreases ps@.len() - i,
        {
            assert(pv[i as int] == param_view(ps@[i as int]));
            if eq_ignore_ascii_case(ps[i].0.as_str(), k) {
                proof {
                    lemma_first_index_at(pv, pr, i as int);
                }
                let key = ps[i].0.clone();
                let val = match &ps[i].1 {
                    Some(v) => Some(v.clone()),
                    None => None,
                };
                return Some((key, val));
            }
            i += 1;
        }
        proof {
            lemma_first_index_none(pv, pr);
        }
        None
    }

    /// The payload format of the body, from the `Content-Type` header: 400
    /// without the header, 500 for a type that is not JSON, TOML or YAML.
    pub fn body_format(&self) -> (r: Result<PayloadFormat, Error>)
        ensures
            match header_value(self@.headers, content_type()) {
                None => r matches Err(e) && e.spec_kind() == ErrorKind::Api(Status::BadRequest),
                Some(ct) => match format_of(ct) {
                    Some(f) => r == Ok::<PayloadFormat, Error>(f),
                    None => r matches Err(e) && e.spec_kind() == ErrorKind::Api(
                        Status::InternalServerError,
                    ),
                },
            },
    {
        proof {
            reveal_strlit("Content-Type");
            reveal_strlit("application/json");
            reveal_strlit("application/toml");
            reveal_strlit("application/yaml");
            assert("Content-Type"@ =~= content_type());
            assert("application/json"@ =~= json_type());
            assert("application/toml"@ =~= toml_type());
            assert("application/yaml"@ =~= yaml_type());
        }
        let ct = match self.0.header("Content-Type") {
            Some(v) => v,
            None => {
                return Err(Error::with_message(ErrorKind::Api(Status::BadRequest), "Missing `Content-Type` header"));
            },
        };
        if eq_ignore_ascii_case(ct.as_str(), "application/json") {
            Ok(PayloadFormat::Json)
        } else if eq_ignore_ascii_case(ct.as_str(), "application/toml") {
            Ok(PayloadFormat::Toml)
        } else if eq_ignore_ascii_case(ct.as_str(), "application/yaml") {
            Ok(PayloadFormat::Yaml)
        } else {
            Err(Error::with_message(ErrorKind::Api(Status::InternalServerError), "Cannot deserialize body of this type"))
        }
    }

    /// The body as text for a payload decoder: without surrounding white
    /// space, ended by a line feed; an I/O error if it is not UTF-8.
    pub fn body_text(&self) -> (r: Result<String, Error>)
        ensures
            match r {
                Ok(t) => valid_utf8(self@.body) && t@ == trim(decode_utf8(self@.body)).push('\n'),
                Err(e) => !valid_utf8(self@.body) && e.spec_kind() == ErrorKind::IO,
            },
    {
        let s = match text_of_bytes(self.0.body().as_slice()) {
            Some(s) => s,
            None => {
                return Err(Error::with_message(ErrorKind::IO, "body is not valid UTF-8"));
            },
        };
        let v = chars_of(s.as_str());
        let (a, b) = trim_bounds(v.as_slice());
        let mut t = String::from_str(s.as_str().substring_char(a, b));
        proof {
            reveal_strlit("\n");
        }
        t.append("\n");
        assert(t@ =~= trim(decode_utf8(self@.body)).push('\n'));
        Ok(t)
    }

    pub fn with_headers<const N: usize>(self, v: [(&str, &str); N]) -> (r: Self)
        ensures
            r@ == (BufferView {
                headers: Seq::new(N as nat, |i: int| (v@[i].0@, v@[i].1@)),
                ..self@
            }),
    {
        Request(self.0.with_headers(v))
    }

    pub fn with_header(self, k: &str, v: &str) -> (r: Self)
        ensures
            r@ == (BufferView { headers: self@.headers.push((k@, v@)), ..self@ }),
    {
        Request(self.0.with_header(k, v))
    }

    pub fn with_body(self, v: &str) -> (r: Self)
        ensures
            r@ == self@.with_body_text(v@),
            r@.wf(),
    {
        Request(self.0.with_body(v))
    }

    pub fn append_body(&mut self, v: &str)
        ensures
            final(self)@ == old(self)@.append_text(v@),
            old(self)@.wf() ==> final(self)@.wf(),
    {
        self.0.append_body(v);
    }

    pub fn set_header(&mut self, k: &str, v: &str)
        ensures
            final(self)@ == (BufferView {
                headers: crate::buffer::set_header_spec(old(self)@.headers, k@, v@),
                ..old(self)@
            }),
    {
        self.0.set_header(k, v);
    }
}

} // verus!
