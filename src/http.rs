//! Methods, versions and start lines of HTTP/1.x-like messages.

use vstd::prelude::*;

use crate::error::{Error, ErrorKind};
use crate::status::{reason_of, Status};
use crate::text::{
    chars_of, decimal, decimal_string, eq_ignore_case, is_digit, lacks, lemma_decimal,
    lemma_split_cons, lemma_split_single, lower, parse_u16, parse_u16_chars, span_eq_ignore_case, span_text,
    split, split_spans, starts_with,
};

verus! {

/// A request method.
#[derive(Clone, Copy, PartialEq, Eq, Debug, Hash, Structural)]
pub enum Method {
    Post,
    Get,
    Put,
    Patch,
    Delete,
    Head,
    Options,
}

/// A protocol version.
#[derive(Clone, Copy, PartialEq, Eq, Debug, Structural)]
pub enum Version {
    V1_0,
    V1_1,
    V2,
}

/// The upper-case name of a method.
pub open spec fn method_name(m: Method) -> Seq<char> {
    match m {
        Method::Post => seq!['P', 'O', 'S', 'T'],
        Method::Get => seq!['G', 'E', 'T'],
        Method::Put => seq!['P', 'U', 'T'],
        Method::Patch => seq!['P', 'A', 'T', 'C', 'H'],
        Method::Delete => seq!['D', 'E', 'L', 'E', 'T', 'E'],
        Method::Head => seq!['H', 'E', 'A', 'D'],
        Method::Options => seq!['O', 'P', 'T', 'I', 'O', 'N', 'S'],
    }
}

/// The method that `t` names, letter case aside.
pub open spec fn method_from(t: Seq<char>) -> Option<Method> {
    if eq_ignore_case(t, method_name(Method::Post)) {
        Some(Method::Post)
    } else if eq_ignore_case(t, method_name(Method::Get)) {
        Some(Method::Get)
    } else if eq_ignore_case(t, method_name(Method::Put)) {
        Some(Method::Put)
    } else if eq_ignore_case(t, method_name(Method::Patch)) {
        Some(Method::Patch)
    } else if eq_ignore_case(t, method_name(Method::Delete)) {
        Some(Method::Delete)
    } else if eq_ignore_case(t, method_name(Method::Head)) {
        Some(Method::Head)
    } else if eq_ignore_case(t, method_name(Method::Options)) {
        Some(Method::Options)
    } else {
        None
    }
}

/// The textual form of a version.
pub open spec fn version_name(v: Version) -> Seq<char> {
    match v {
        Version::V1_0 => seq!['H', 'T', 'T', 'P', '/', '1', '.', '0'],
        Version::V1_1 => seq!['H', 'T', 'T', 'P', '/', '1', '.', '1'],
        Version::V2 => seq!['H', 'T', 'T', 'P', '/', '2'],
    }
}

/// The version that `t` names, letter case aside.
pub open spec fn version_from(t: Seq<char>) -> Option<Version> {
    if eq_ignore_case(t, version_name(Version::V1_0)) {
        Some(Version::V1_0)
    } else if eq_ignore_case(t, version_name(Version::V1_1)) {
        Some(Version::V1_1)
    } else if eq_ignore_case(t, version_name(Version::V2)) {
        Some(Version::V2)
    } else {
        None
    }
}

impl Method {
    pub fn repr(&self) -> (r: String)
        ensures
            r@ == method_name(*self),
    {
        String::from_str(self.name())
    }

    /// The upper-case name, as a literal.
    pub fn name(&self) -> (r: &'static str)
        ensures
            r@ == method_name(*self),
    {
        proof {
            reveal_strlit("POST");
            reveal_strlit("GET");
            reveal_strlit("PUT");
            reveal_strlit("PATCH");
            reveal_strlit("DELETE");
            reveal_strlit("HEAD");
            reveal_strlit("OPTIONS");
        }
        match self {
            Method::Post => "POST",
            Method::Get => "GET",
            Method::Put => "PUT",
            Method::Patch => "PATCH",
            Method::Delete => "DELETE",
            Method::Head => "HEAD",
            Method::Options => "OPTIONS",
        }
    }

    /// The method named by the characters `v[lo..hi]`, letter case aside.
    pub fn from_chars(v: &[char], lo: usize, hi: usize) -> (r: Option<Method>)
        requires
            lo <= hi <= v@.len(),
        ensures
            r == method_from(v@.subrange(lo as int, hi as int)),
    {
        if span_eq_ignore_case(v, lo, hi, Method::Post.name()) {
            Some(Method::Post)
        } else if span_eq_ignore_case(v, lo, hi, Method::Get.name()) {
            Some(Method::Get)
        } else if span_eq_ignore_case(v, lo, hi, Method::Put.name()) {
            Some(Method::Put)
        } else if span_eq_ignore_case(v, lo, hi, Method::Patch.name()) {
            Some(Method::Patch)
        } else if span_eq_ignore_case(v, lo, hi, Method::Delete.name()) {
            Some(Method::Delete)
        } else if span_eq_ignore_case(v, lo, hi, Method::Head.name()) {
            Some(Method::Head)
        } else if span_eq_ignore_case(v, lo, hi, Method::Options.name()) {
            Some(Method::Options)
        } else {
            None
        }
    }

    /// The method that `s` names, letter case aside.
    pub fn parse(s: &str) -> (r: Result<Method, Error>)
        ensures
            match r {
                Ok(m) => method_from(s@) == Some(m),
                Err(e) => method_from(s@) is None && e.spec_kind() == ErrorKind::Parse,
            },
    {
        let v = chars_of(s);
        assert(v@.subrange(0, v@.len() as int) =~= v@);
        match Method::from_chars(v.as_slice(), 0, v.len()) {
            Some(m) => Ok(m),
            None => Err(Error::with_message(ErrorKind::Parse, "unknown http method")),
        }
    }
}

impl Version {
    pub fn repr(&self) -> (r: &'static str)
        ensures
            r@ == version_name(*self),
    {
        proof {
            reveal_strlit("HTTP/1.0");
            reveal_strlit("HTTP/1.1");
            reveal_strlit("HTTP/2");
        }
        match self {
            Version::V1_0 => "HTTP/1.0",
            Version::V1_1 => "HTTP/1.1",
            Version::V2 => "HTTP/2",
        }
    }

    /// The version named by the characters `v[lo..hi]`, letter case aside.
    pub fn from_chars(v: &[char], lo: usize, hi: usize) -> (r: Option<Version>)
        requires
            lo <= hi <= v@.len(),
        ensures
            r == version_from(v@.subrange(lo as int, hi as int)),
    {
        if span_eq_ignore_case(v, lo, hi, Version::V1_0.repr()) {
            Some(Version::V1_0)
        } else if span_eq_ignore_case(v, lo, hi, Version::V1_1.repr()) {
            Some(Version::V1_1)
        } else if span_eq_ignore_case(v, lo, hi, Version::V2.repr()) {
            Some(Version::V2)
        } else {
            None
        }
    }

    /// The version that `s` names, letter case aside.
    pub fn parse(s: &str) -> (r: Result<Version, Error>)
        ensures
            match r {
                Ok(v) => version_from(s@) == Some(v),
                Err(e) => version_from(s@) is None && e.spec_kind() == ErrorKind::Parse,
            },
    {
        let v = chars_of(s);
        assert(v@.subrange(0, v@.len() as int) =~= v@);
        match Version::from_chars(v.as_slice(), 0, v.len()) {
            Some(x) => Ok(x),
            None => Err(Error::with_message(ErrorKind::Parse, "unknown http version")),
        }
    }
}

impl Default for Version {
    fn default() -> (r: Self)
        ensures
            r == Version::V1_1,
    {
        Version::V1_1
    }
}

/// The start line of a request.
#[derive(Clone, Debug)]
pub struct RequestStart {
    pub method: Method,
    pub target: String,
    pub version: Version,
}

/// The start line of a response.
#[derive(Clone, Debug)]
pub struct ResponseStart {
    pub version: Version,
    pub status: u16,
    pub reason: Option<String>,
}

/// The first line of a message.
#[derive(Clone, Debug)]
pub enum StartLine {
    Request(RequestStart),
    Response(ResponseStart),
}

/// What a start line holds.
pub enum StartView {
    Request { method: Method, target: Seq<char>, version: Version },
    Response { version: Version, status: u16, reason: Option<Seq<char>> },
}

pub open spec fn opt_view(o: Option<String>) -> Option<Seq<char>> {
    match o {
        Some(s) => Some(s@),
        None => None,
    }
}

impl View for StartLine {
    type V = StartView;

    open spec fn view(&self) -> StartView {
        match self {
            StartLine::Request(r) => StartView::Request {
                method: r.method,
                target: r.target@,
                version: r.version,
            },
            StartLine::Response(r) => StartView::Response {
                version: r.version,
                status: r.status,
                reason: opt_view(r.reason),
            },
        }
    }
}

/// The text of a start line.
pub open spec fn start_text(st: StartView) -> Seq<char> {
    match st {
        StartView::Request { method, target, version } => method_name(method) + seq![' ']
            + target + seq![' '] + version_name(version),
        StartView::Response { version, status, reason } => version_name(version) + seq![' ']
            + decimal(status as nat) + match reason {
            Some(r) => seq![' '] + r,
            None => seq![],
        },
    }
}

pub open spec fn http_prefix() -> Seq<char> {
    seq!['H', 'T', 'T', 'P']
}

/// Reading a start line: tokens split on single spaces; a first token that
/// begins with `HTTP` opens a status line, any other a request line.
pub open spec fn parse_start(l: Seq<char>) -> Result<StartView, ErrorKind> {
    let t = split(l, ' ');
    if t.len() < 2 {
        Err(ErrorKind::Parse)
    } else if starts_with(t[0], http_prefix()) {
        match version_from(t[0]) {
            None => Err(ErrorKind::Parse),
            Some(version) => match parse_u16(t[1]) {
                None => Err(ErrorKind::Parse),
                Some(status) => Ok(
                    StartView::Response {
                        version,
                        status,
                        reason: if t.len() > 2 {
                            Some(t[2])
                        } else {
                            reason_of(status)
                        },
                    },
                ),
            },
        }
    } else {
        match method_from(t[0]) {
            None => Err(ErrorKind::Parse),
            Some(method) => if t.len() < 3 {
                Err(ErrorKind::Parse)
            } else {
                match version_from(t[2]) {
                    None => Err(ErrorKind::Parse),
                    Some(version) => Ok(StartView::Request { method, target: t[1], version }),
                }
            },
        }
    }
}

/// A start line that reads back as itself: no space or line break inside a
/// token, and a missing reason phrase only where the status table has none.
pub open spec fn start_safe(st: StartView) -> bool {
    match st {
        StartView::Request { method, target, version } => lacks(target, ' ') && lacks(target, '\n'),
        StartView::Response { version, status, reason } => match reason {
            Some(r) => lacks(r, ' ') && lacks(r, '\n') && lacks(r, '\r'),
            None => reason_of(status) is None,
        },
    }
}

proof fn lemma_names(m: Method, v: Version)
    ensures
        lacks(method_name(m), ' '),
        lacks(method_name(m), '\n'),
        !starts_with(method_name(m), http_prefix()),
        method_from(method_name(m)) == Some(m),
        lacks(version_name(v), ' '),
        lacks(version_name(v), '\n'),
        version_name(v).len() > 0 && version_name(v).last() != '\r',
        starts_with(version_name(v), http_prefix()),
        version_from(version_name(v)) == Some(v),
{
    let n = method_name(m);
    let post = method_name(Method::Post);
    let get = method_name(Method::Get);
    let put = method_name(Method::Put);
    let patch = method_name(Method::Patch);
    let delete = method_name(Method::Delete);
    let head = method_name(Method::Head);
    assert(!eq_ignore_case(get, post));
    assert(!eq_ignore_case(put, post));
    assert(!eq_ignore_case(put, get)) by {
        assert(lower(put[0]) != lower(get[0]));
    }
    assert(!eq_ignore_case(patch, post));
    assert(!eq_ignore_case(patch, get));
    assert(!eq_ignore_case(patch, put));
    assert(!eq_ignore_case(head, post)) by {
        assert(lower(head[0]) != lower(post[0]));
    }
    assert(eq_ignore_case(n, n));
    if n.len() >= 4 {
        assert(n.take(4) != http_prefix()) by {
            assert(n.take(4)[0] != 'H' || n.take(4)[1] != 'T');
        }
    }
    let w = version_name(v);
    let w0 = version_name(Version::V1_0);
    let w1 = version_name(Version::V1_1);
    assert(!eq_ignore_case(w1, w0)) by {
        assert(lower(w1[7]) != lower(w0[7]));
    }
    assert(eq_ignore_case(w, w));
    assert(w.take(4) =~= http_prefix());
}

/// A start line that satisfies `start_safe` reads back as itself, and its
/// text is a single line.
pub proof fn lemma_start_round_trip(st: StartView)
    requires
        start_safe(st),
    ensures
        parse_start(start_text(st)) == Ok::<StartView, ErrorKind>(st),
        lacks(start_text(st), '\n'),
        start_text(st).len() > 0 && start_text(st).last() != '\r',
{
    match st {
        StartView::Request { method, target, version } => {
            lemma_names(method, version);
            let n = method_name(method);
            let w = version_name(version);
            let text = start_text(st);
            assert(text =~= n + seq![' '] + (target + seq![' '] + w));
            lemma_split_cons(n, ' ', target + seq![' '] + w);
            lemma_split_cons(target, ' ', w);
            lemma_split_single(w, ' ');
            let t = split(text, ' ');
            assert(t =~= seq![n, target, w]);
            assert(lacks(text, '\n')) by {
                assert forall|i: int| 0 <= i < text.len() implies #[trigger] text[i] != '\n' by {
                    if i < n.len() {
                        assert(text[i] == n[i]);
                    } else if i > n.len() && i < n.len() + 1 + target.len() {
                        assert(text[i] == target[i - n.len() - 1]);
                    } else if i >= n.len() + 2 + target.len() {
                        assert(text[i] == w[i - n.len() - 2 - target.len()]);
                    }
                }
            }
            assert(text.last() == w.last());
        },
        StartView::Response { version, status, reason } => {
            lemma_names(Method::Get, version);
            lemma_decimal(status as nat);
            let w = version_name(version);
            let d = decimal(status as nat);
            assert(lacks(d, ' ') && lacks(d, '\n') && d.last() != '\r') by {
                assert(is_digit(d[d.len() - 1]));
                assert forall|i: int| 0 <= i < d.len() implies #[trigger] d[i] != ' ' && d[i] != '\n' by {
                    assert(is_digit(d[i]));
                }
            }
            assert(parse_u16(d) == Some(status)) by {
                assert(!(d.len() > 0 && d[0] == '+'));
            }
            let text = start_text(st);
            match reason {
                Some(r) => {
                    assert(text =~= w + seq![' '] + (d + seq![' '] + r));
                    lemma_split_cons(w, ' ', d + seq![' '] + r);
                    lemma_split_cons(d, ' ', r);
                    lemma_split_single(r, ' ');
                    assert(split(text, ' ') =~= seq![w, d, r]);
                    assert(lacks(text, '\n')) by {
                        assert forall|i: int| 0 <= i < text.len() implies #[trigger] text[i] != '\n' by {
                            if i < w.len() {
                                assert(text[i] == w[i]);
                            } else if i > w.len() && i < w.len() + 1 + d.len() {
                                assert(text[i] == d[i - w.len() - 1]);
                            } else if i >= w.len() + 2 + d.len() {
                                assert(text[i] == r[i - w.len() - 2 - d.len()]);
                            }
                        }
                    }
                    if r.len() > 0 {
                        assert(text.last() == r.last());
                        assert(r[r.len() - 1] != '\r');
                    }
                },
                None => {
                    assert(text =~= w + seq![' '] + d);
                    lemma_split_cons(w, ' ', d);
                    lemma_split_single(d, ' ');
                    assert(split(text, ' ') =~= seq![w, d]);
                    assert(lacks(text, '\n')) by {
                        assert forall|i: int| 0 <= i < text.len() implies #[trigger] text[i] != '\n' by {
                            if i < w.len() {
                                assert(text[i] == w[i]);
                            } else if i > w.len() {
                                assert(text[i] == d[i - w.len() - 1]);
                            }
                        }
                    }
                    assert(text.last() == d.last());
                },
            }
        },
    }
}

/// The canonical reason phrase of `code`, if the status table knows it.
pub fn reason_for(code: u16) -> (r: Option<String>)
    ensures
        opt_view(r) == reason_of(code),
{
    match Status::from_code(code) {
        Some(s) => Some(String::from_str(s.text())),
        None => None,
    }
}

impl StartLine {
    pub fn request(m: Method, t: &str, v: Version) -> (r: Self)
        ensures
            r@ == (StartView::Request { method: m, target: t@, version: v }),
    {
        StartLine::Request(RequestStart { method: m, target: String::from_str(t), version: v })
    }

    /// A status line; without a reason phrase, the status table's one is taken.
    pub fn response(v: Version, s: u16, r: Option<String>) -> (res: Self)
        ensures
            res@ == (StartView::Response {
                version: v,
                status: s,
                reason: match r {
                    Some(x) => Some(x@),
                    None => reason_of(s),
                },
            }),
    {
        let reason = match r {
            Some(x) => Some(x),
            None => reason_for(s),
        };
        StartLine::Response(ResponseStart { version: v, status: s, reason })
    }

    pub fn as_request(&self) -> (r: Option<&RequestStart>)
        ensures
            match self {
                StartLine::Request(x) => r == Some(x),
                StartLine::Response(_) => r is None,
            },
    {
        match self {
            StartLine::Request(x) => Some(x),
            StartLine::Response(_) => None,
        }
    }

    pub fn as_response(&self) -> (r: Option<&ResponseStart>)
        ensures
            match self {
                StartLine::Response(x) => r == Some(x),
                StartLine::Request(_) => r is None,
            },
    {
        match self {
            StartLine::Response(x) => Some(x),
            StartLine::Request(_) => None,
        }
    }

    pub fn as_request_mut(&mut self) -> (r: Option<&mut RequestStart>)
        ensures
            match *old(self) {
                StartLine::Request(x) => r matches Some(m) && *m == x && *final(self)
                    == StartLine::Request(*final(m)),
                StartLine::Response(_) => r is None && *final(self) == *old(self),
            },
    {
        match self {
            StartLine::Request(x) => Some(x),
            StartLine::Response(_) => None,
        }
    }

    pub fn as_response_mut(&mut self) -> (r: Option<&mut ResponseStart>)
        ensures
            match *old(self) {
                StartLine::Response(x) => r matches Some(m) && *m == x && *final(self)
                    == StartLine::Response(*final(m)),
                StartLine::Request(_) => r is None && *final(self) == *old(self),
            },
    {
        match self {
            StartLine::Response(x) => Some(x),
            StartLine::Request(_) => None,
        }
    }

    /// The text of the start line.
    pub fn to_text(&self) -> (r: String)
        ensures
            r@ == start_text(self@),
    {
        proof {
            reveal_strlit(" ");
        }
        match self {
            StartLine::Request(x) => {
                let mut out = x.method.repr();
                out.append(" ");
                out.append(x.target.as_str());
                out.append(" ");
                out.append(x.version.repr());
                out
            },
            StartLine::Response(x) => {
                let mut out = String::from_str(x.version.repr());
                out.append(" ");
                let code = decimal_string(x.status as u128);
                out.append(code.as_str());
                match &x.reason {
                    Some(r) => {
                        out.append(" ");
                        out.append(r.as_str());
                    },
                    None => {},
                }
                out
            },
        }
    }

    /// Reads the start line held by the characters `v[lo..hi]`.
    pub fn from_chars(v: &[char], lo: usize, hi: usize, s: &str) -> (r: Result<StartLine, Error>)
        requires
            lo <= hi <= v@.len(),
            v@ == s@,
        ensures
            match r {
                Ok(st) => parse_start(v@.subrange(lo as int, hi as int)) == Ok::<StartView, ErrorKind>(st@),
                Err(e) => parse_start(v@.subrange(lo as int, hi as int)) == Err::<StartView, ErrorKind>(e.spec_kind()),
            },
    {
        let ghost l = v@.subrange(lo as int, hi as int);
        let t = split_spans(v, lo, hi, ' ');
        let ghost ts = split(l, ' ');
        if t.len() < 2 {
            return Err(Error::with_message(ErrorKind::Parse, "invalid http start line, expected at least 2 parts"));
        }
        let (a0, b0) = t[0];
        let (a1, b1) = t[1];
        assert(span_text(v@, t@[0]) == ts[0]);
        assert(span_text(v@, t@[1]) == ts[1]);
        proof {
            reveal_strlit("HTTP");
        }
        let is_status = b0 - a0 >= 4 && span_starts_with(v, a0, "HTTP");
        assert(is_status == starts_with(ts[0], http_prefix())) by {
            assert("HTTP"@ =~= http_prefix());
            if b0 - a0 >= 4 {
                assert(ts[0].take(4) =~= v@.subrange(a0 as int, a0 + 4));
            }
        }
        if is_status {
            let version = match Version::from_chars(v, a0, b0) {
                Some(x) => x,
                None => { return Err(Error::with_message(ErrorKind::Parse, "unknown http version")); },
            };
            let status = match parse_u16_chars(v, a1, b1) {
                Some(x) => x,
                None => { return Err(Error::with_message(ErrorKind::Parse, "invalid http status")); },
            };
            let reason = if t.len() > 2 {
                let (a2, b2) = t[2];
                assert(span_text(v@, t@[2]) == ts[2]);
                Some(String::from_str(s.substring_char(a2, b2)))
            } else {
                None
            };
            Ok(StartLine::response(version, status, reason))
        } else {
            let method = match Method::from_chars(v, a0, b0) {
                Some(x) => x,
                None => { return Err(Error::with_message(ErrorKind::Parse, "unknown http method")); },
            };
            if t.len() < 3 {
                return Err(Error::with_message(ErrorKind::Parse, "invalid http start line, missing version"));
            }
            let (a2, b2) = t[2];
            assert(span_text(v@, t@[2]) == ts[2]);
            let version = match Version::from_chars(v, a2, b2) {
                Some(x) => x,
                None => { return Err(Error::with_message(ErrorKind::Parse, "unknown http version")); },
            };
            Ok(StartLine::request(method, s.substring_char(a1, b1), version))
        }
    }

    /// Reads a start line.
    pub fn parse(s: &str) -> (r: Result<StartLine, Error>)
        ensures
            match r {
                Ok(st) => parse_start(s@) == Ok::<StartView, ErrorKind>(st@),
                Err(e) => parse_start(s@) == Err::<StartView, ErrorKind>(e.spec_kind()),
            },
    {
        let v = chars_of(s);
        assert(v@.subrange(0, v@.len() as int) =~= v@);
        StartLine::from_chars(v.as_slice(), 0, v.len(), s)
    }
}

/// `v[lo..]` begins with `p`, exactly.
fn span_starts_with(v: &[char], lo: usize, p: &str) -> (r: bool)
    requires
        lo <= v@.len(),
    ensures
        r == (lo + p@.len() <= v@.len() && v@.subrange(lo as int, lo + p@.len()) == p@),
{
    let y = chars_of(p);
    let n = v.len();
    if y.len() > n - lo {
        return false;
    }
    let mut i: usize = 0;
    while i < y.len()
        invariant
            n == v@.len(),
            lo <= v@.len(),
            lo + y@.len() <= v@.len(),
            y@ == p@,
            i <= y@.len(),
            forall|j: int| 0 <= j < i ==> v@[lo + j] == y@[j],
        decreases y@.len() - i,
    {
        if v[lo + i] != y[i] {
            assert(v@.subrange(lo as int, lo + p@.len())[i as int] != p@[i as int]);
            return false;
        }
        i += 1;
    }
    assert(v@.subrange(lo as int, lo + p@.len()) =~= p@);
    true
}

} // verus!
