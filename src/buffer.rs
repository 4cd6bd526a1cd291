//! A message: start line, ordered headers and a body, with its wire form.
//!
//! The wire form is the start line, one `name: value` line per header, and,
//! when the body is not empty, a blank line followed by the body.

use vstd::prelude::*;
use vstd::utf8::{decode_utf8, encode_utf8, valid_utf8};

use crate::error::{Error, ErrorKind};
use crate::http::{
    lemma_start_round_trip, parse_start, start_safe, start_text, StartLine, StartView, Version,
};
use crate::status::reason_of;
use crate::text::{
    chars_of, decimal, decimal_string, eq_ignore_ascii_case, eq_ignore_case, find_in, first_index,
    index_of, is_space, is_space_char, join, lacks, lemma_first_index, lemma_first_index_at,
    lemma_first_index_none, lemma_index_of_at, lemma_join_lines, lemma_lines_cons,
    lemma_trim_start_none, line_spans, lines, lower, span_text, strip_cr, trim_start,
};

verus! {

pub type HeaderView = (Seq<char>, Seq<char>);

/// What a message holds.
pub struct BufferView {
    pub start: StartView,
    pub headers: Seq<HeaderView>,
    pub body: Seq<u8>,
}

pub open spec fn headers_view(hs: Seq<(String, String)>) -> Seq<HeaderView> {
    hs.map_values(|h: (String, String)| (h.0@, h.1@))
}

pub open spec fn content_length() -> Seq<char> {
    seq!['C', 'o', 'n', 't', 'e', 'n', 't', '-', 'L', 'e', 'n', 'g', 't', 'h']
}

/// Position of the first header named `k`, letter case aside; -1 if none.
pub open spec fn header_index(hs: Seq<HeaderView>, k: Seq<char>) -> int {
    first_index(hs, |h: HeaderView| eq_ignore_case(h.0, k))
}

/// The value of the first header named `k`, letter case aside.
pub open spec fn header_value(hs: Seq<HeaderView>, k: Seq<char>) -> Option<Seq<char>> {
    let i = header_index(hs, k);
    if 0 <= i < hs.len() {
        Some(hs[i].1)
    } else {
        None
    }
}

/// Setting a header: the first header named `k` (letter case aside) takes
/// the value `v`, keeping its name; without one, `(k, v)` is appended.
pub open spec fn set_header_spec(hs: Seq<HeaderView>, k: Seq<char>, v: Seq<char>) -> Seq<HeaderView> {
    let i = header_index(hs, k);
    if 0 <= i < hs.len() {
        hs.update(i, (hs[i].0, v))
    } else {
        hs.push((k, v))
    }
}

/// One header as a line, without its line feed.
pub open spec fn header_line(h: HeaderView) -> Seq<char> {
    h.0 + seq![':', ' '] + h.1
}

/// The header lines, each ended by a line feed.
pub open spec fn header_block(hs: Seq<HeaderView>) -> Seq<char>
    decreases hs.len(),
{
    if hs.len() == 0 {
        seq![]
    } else {
        header_line(hs[0]) + seq!['\n'] + header_block(hs.drop_first())
    }
}

/// Reading a header line: the name runs up to the first colon, the value is
/// the rest without its leading white space.
pub open spec fn parse_header(l: Seq<char>) -> HeaderView {
    let i = index_of(l, ':');
    (l.take(i), trim_start(l.skip(i + 1)))
}

impl BufferView {
    /// The body holds text.
    pub open spec fn wf(self) -> bool {
        valid_utf8(self.body)
    }

    /// The message with its body replaced by `t` and `Content-Length` set.
    pub open spec fn with_body_text(self, t: Seq<char>) -> BufferView {
        self.with_body_bytes(encode_utf8(t))
    }

    /// The message with body `b` and `Content-Length` set to its length.
    pub open spec fn with_body_bytes(self, b: Seq<u8>) -> BufferView {
        BufferView {
            body: b,
            headers: set_header_spec(self.headers, content_length(), decimal(b.len())),
            ..self
        }
    }

    /// The message with `t` appended to its body and `Content-Length` set.
    pub open spec fn append_text(self, t: Seq<char>) -> BufferView {
        self.with_body_bytes(self.body + encode_utf8(t))
    }

    /// The start line and the header lines.
    pub open spec fn head_text(self) -> Seq<char> {
        start_text(self.start) + seq!['\n'] + header_block(self.headers)
    }

    /// The wire form as text.
    pub open spec fn wire_text(self) -> Seq<char> {
        self.head_text() + if self.body.len() > 0 {
            seq!['\n'] + decode_utf8(self.body)
        } else {
            seq![]
        }
    }

    /// The wire form as bytes.
    pub open spec fn wire_bytes(self) -> Seq<u8> {
        encode_utf8(self.head_text()) + if self.body.len() > 0 {
            seq![10u8] + self.body
        } else {
            seq![]
        }
    }
}

/// Reading a message: the first line is the start line; the lines before the
/// first blank line are headers; the lines after it, joined by line feeds,
/// are the body.
pub open spec fn parse_message(s: Seq<char>) -> Result<BufferView, ErrorKind> {
    let ls = lines(s);
    if ls.len() == 0 {
        Err(ErrorKind::Parse)
    } else {
        match parse_start(ls[0]) {
            Err(e) => Err(e),
            Ok(start) => {
                let rest = ls.drop_first();
                let k = blank_index(rest);
                let hl = rest.take(k);
                if exists|i: int| 0 <= i < hl.len() && index_of(#[trigger] hl[i], ':') < 0 {
                    Err(ErrorKind::Parse)
                } else {
                    let body_lines = if k < rest.len() {
                        rest.skip(k + 1)
                    } else {
                        seq![]
                    };
                    Ok(
                        BufferView {
                            start,
                            headers: hl.map_values(|l: Seq<char>| parse_header(l)),
                            body: seq![],
                        }.with_body_text(join(body_lines, '\n')),
                    )
                }
            },
        }
    }
}

/// Position of the first blank line, or the number of lines.
pub open spec fn blank_index(ls: Seq<Seq<char>>) -> int {
    let i = first_index(ls, |l: Seq<char>| l.len() == 0);
    if i < 0 {
        ls.len() as int
    } else {
        i
    }
}

/// A header that reads back as itself: no colon or line break in the name,
/// no line break or carriage return in the value, and no leading white space
/// in the value.
pub open spec fn header_safe(h: HeaderView) -> bool {
    &&& lacks(h.0, ':')
    &&& lacks(h.0, '\n')
    &&& lacks(h.1, '\n')
    &&& lacks(h.1, '\r')
    &&& (h.1.len() > 0 ==> !is_space(h.1[0]))
}

impl BufferView {
    /// A message that reads back as itself: a start line and headers of the
    /// shapes above, a text body without carriage returns that does not end
    /// in a line feed, and a `Content-Length` header that already holds the
    /// body's byte length.
    pub open spec fn text_safe(self) -> bool {
        &&& start_safe(self.start)
        &&& forall|i: int| 0 <= i < self.headers.len() ==> header_safe(#[trigger] self.headers[i])
        &&& valid_utf8(self.body)
        &&& lacks(decode_utf8(self.body), '\r')
        &&& (self.body.len() > 0 ==> decode_utf8(self.body).last() != '\n')
        &&& header_value(self.headers, content_length()) == Some(decimal(self.body.len()))
    }
}

proof fn lemma_header_line(h: HeaderView)
    requires
        header_safe(h),
    ensures
        lacks(header_line(h), '\n'),
        header_line(h).len() > 0,
        strip_cr(header_line(h)) == header_line(h),
        index_of(header_line(h), ':') >= 0,
        parse_header(header_line(h)) == h,
{
    let l = header_line(h);
    let n = h.0.len();
    assert(lacks(l, '\n')) by {
        assert forall|i: int| 0 <= i < l.len() implies #[trigger] l[i] != '\n' by {
            if i < n {
                assert(l[i] == h.0[i]);
            } else if i >= n + 2 {
                assert(l[i] == h.1[i - n - 2]);
            }
        }
    }
    if h.1.len() > 0 {
        assert(l.last() == h.1[h.1.len() - 1]);
    }
    assert(l.take(n as int) =~= h.0);
    assert(l[n as int] == ':');
    lemma_index_of_at(l, ':', n as int);
    let after = l.skip(n as int + 1);
    assert(after.drop_first() =~= h.1);
    assert(is_space(after[0]));
    lemma_trim_start_none(h.1);
    assert(l.take(n as int) =~= h.0);
}

proof fn lemma_lines_block(hs: Seq<HeaderView>, tail: Seq<char>)
    requires
        forall|i: int| 0 <= i < hs.len() ==> header_safe(#[trigger] hs[i]),
    ensures
        lines(header_block(hs) + tail) == hs.map_values(|h: HeaderView| header_line(h)) + lines(tail),
    decreases hs.len(),
{
    if hs.len() == 0 {
        assert(header_block(hs) + tail =~= tail);
        assert(hs.map_values(|h: HeaderView| header_line(h)) + lines(tail) =~= lines(tail));
    } else {
        let rest = hs.drop_first();
        assert(header_safe(hs[0]));
        assert forall|i: int| 0 <= i < rest.len() implies header_safe(#[trigger] rest[i]) by {
            assert(rest[i] == hs[i + 1]);
        }
        lemma_lines_block(rest, tail);
        lemma_header_line(hs[0]);
        assert(header_block(hs) + tail =~= header_line(hs[0]) + seq!['\n'] + (header_block(rest) + tail));
        lemma_lines_cons(header_line(hs[0]), header_block(rest) + tail);
        assert(hs.map_values(|h: HeaderView| header_line(h)) =~= seq![header_line(hs[0])] + rest.map_values(|h: HeaderView| header_line(h)));
        assert(lines(header_block(hs) + tail) =~= hs.map_values(|h: HeaderView| header_line(h)) + lines(tail));
    }
}

/// Reading the wire form of a message gives the message back, for every
/// message whose text reads back as itself (see `text_safe`).
pub proof fn lemma_round_trip(b: BufferView)
    requires
        b.text_safe(),
    ensures
        parse_message(b.wire_text()) == Ok::<BufferView, ErrorKind>(b),
{
    let st = start_text(b.start);
    let hs = b.headers;
    let text = decode_utf8(b.body);
    let tail = if b.body.len() > 0 { seq!['\n'] + text } else { Seq::<char>::empty() };
    lemma_start_round_trip(b.start);
    lemma_lines_block(hs, tail);
    assert(b.wire_text() =~= st + seq!['\n'] + (header_block(hs) + tail));
    lemma_lines_cons(st, header_block(hs) + tail);
    let hl = hs.map_values(|h: HeaderView| header_line(h));
    let ls = lines(b.wire_text());
    assert(strip_cr(st) == st);
    let rest = ls.drop_first();
    assert(rest =~= hl + lines(tail));
    let body_lines = if b.body.len() > 0 { lines(text) } else { Seq::<Seq<char>>::empty() };
    if b.body.len() > 0 {
        assert(tail =~= Seq::<char>::empty() + seq!['\n'] + text);
        lemma_lines_cons(Seq::<char>::empty(), text);
        assert(strip_cr(Seq::<char>::empty()) =~= Seq::<char>::empty());
        assert(lines(tail) =~= seq![Seq::<char>::empty()] + lines(text));
    } else {
        assert(lines(tail) =~= Seq::<Seq<char>>::empty());
    }
    let k = hs.len() as int;
    assert forall|i: int| 0 <= i < k implies (#[trigger] rest[i]).len() > 0 && index_of(rest[i], ':') >= 0 && parse_header(rest[i]) == hs[i] by {
        assert(header_safe(hs[i]));
        lemma_header_line(hs[i]);
        assert(rest[i] == header_line(hs[i]));
    }
    let p = |l: Seq<char>| l.len() == 0;
    if b.body.len() > 0 {
        assert(rest[k].len() == 0);
        assert forall|q: int| 0 <= q < k implies !p(#[trigger] rest[q]) by {}
        lemma_first_index_at(rest, p, k);
        assert(rest.skip(k + 1) =~= lines(text));
    } else {
        assert(rest =~= hl);
        assert forall|q: int| 0 <= q < rest.len() implies !p(#[trigger] rest[q]) by {}
        lemma_first_index_none(rest, p);
    }
    assert(blank_index(rest) == k);
    let taken = rest.take(k);
    assert(!(exists|i: int| 0 <= i < taken.len() && index_of(#[trigger] taken[i], ':') < 0)) by {
        assert forall|i: int| 0 <= i < taken.len() implies index_of(#[trigger] taken[i], ':') >= 0 by {
            assert(taken[i] == rest[i]);
        }
    }
    assert(taken.map_values(|l: Seq<char>| parse_header(l)) =~= hs) by {
        assert forall|i: int| 0 <= i < k implies taken.map_values(|l: Seq<char>| parse_header(l))[i] == hs[i] by {
            assert(taken[i] == rest[i]);
        }
    }
    if b.body.len() > 0 {
        lemma_join_lines(text);
        vstd::utf8::decode_utf8_encode_utf8(b.body);
    } else {
        assert(join(Seq::<Seq<char>>::empty(), '\n') =~= Seq::<char>::empty());
        assert(encode_utf8(Seq::<char>::empty()) =~= b.body);
    }
    let i = header_index(hs, content_length());
    lemma_first_index(hs, |h: HeaderView| eq_ignore_case(h.0, content_length()));
    assert(hs.update(i, (hs[i].0, hs[i].1)) =~= hs);
}

/// Setting a header twice, under names equal up to letter case, leaves one
/// header of that name, holding the second value, where there was at most
/// one before.
pub proof fn lemma_set_header_twice(hs: Seq<HeaderView>, k1: Seq<char>, v1: Seq<char>, k2: Seq<char>, v2: Seq<char>)
    requires
        eq_ignore_case(k1, k2),
        forall|i: int, j: int|
            0 <= i < hs.len() && 0 <= j < hs.len() && eq_ignore_case(#[trigger] hs[i].0, k1)
                && eq_ignore_case(#[trigger] hs[j].0, k1) ==> i == j,
    ensures
        ({
            let out = set_header_spec(set_header_spec(hs, k1, v1), k2, v2);
            &&& header_value(out, k2) == Some(v2)
            &&& header_value(out, k1) == Some(v2)
            &&& forall|i: int, j: int|
                0 <= i < out.len() && 0 <= j < out.len() && eq_ignore_case(#[trigger] out[i].0, k2)
                    && eq_ignore_case(#[trigger] out[j].0, k2) ==> i == j
        }),
{
    let once = set_header_spec(hs, k1, v1);
    let out = set_header_spec(once, k2, v2);
    let p1 = |h: HeaderView| eq_ignore_case(h.0, k1);
    let p2 = |h: HeaderView| eq_ignore_case(h.0, k2);
    // names that match one key match the other
    assert forall|x: Seq<char>| eq_ignore_case(x, k1) <==> eq_ignore_case(x, k2) by {
        if eq_ignore_case(x, k1) {
            assert forall|i: int| 0 <= i < x.len() implies lower(#[trigger] x[i]) == lower(k2[i]) by {
                assert(lower(x[i]) == lower(k1[i]));
                assert(lower(k1[i]) == lower(k2[i]));
            }
        }
        if eq_ignore_case(x, k2) {
            assert forall|i: int| 0 <= i < x.len() implies lower(#[trigger] x[i]) == lower(k1[i]) by {
                assert(lower(x[i]) == lower(k2[i]));
                assert(lower(k1[i]) == lower(k2[i]));
            }
        }
    }
    assert(eq_ignore_case(k1, k1));
    lemma_first_index(hs, p1);
    let i1 = header_index(hs, k1);
    // after the first set, exactly one header matches, at `i1` or at the end
    let at = if 0 <= i1 < hs.len() { i1 } else { hs.len() as int };
    assert(eq_ignore_case(once[at].0, k2));
    assert forall|j: int| 0 <= j < once.len() && j != at implies !eq_ignore_case(#[trigger] once[j].0, k2) by {
        assert(once[j] == hs[j]);
        if eq_ignore_case(hs[j].0, k1) {
            if 0 <= i1 < hs.len() {
                assert(eq_ignore_case(hs[i1].0, k1));
            }
        }
    }
    lemma_header_found(once, k2, at);
    assert(out == once.update(at, (once[at].0, v2)));
    assert forall|j: int| 0 <= j < out.len() && j != at implies !eq_ignore_case(#[trigger] out[j].0, k2) by {
        assert(out[j] == once[j]);
    }
    lemma_header_found(out, k2, at);
    assert forall|j: int| 0 <= j < at implies !eq_ignore_case(#[trigger] out[j].0, k1) by {
        assert(!eq_ignore_case(out[j].0, k2));
    }
    lemma_header_found(out, k1, at);
}

/// A message: start line, headers in order, body bytes.
#[derive(Clone, Debug)]
pub struct Buffer {
    start_line: StartLine,
    headers: Vec<(String, String)>,
    body: Vec<u8>,
}

impl View for Buffer {
    type V = BufferView;

    closed spec fn view(&self) -> BufferView {
        BufferView {
            start: self.start_line@,
            headers: headers_view(self.headers@),
            body: self.body@,
        }
    }
}

/// Relies on `std::str::from_utf8`: it accepts exactly the valid UTF-8 byte
/// sequences, and the characters of the result are the ones they encode.
#[verifier::external_body]
fn utf8_text(b: &[u8]) -> (r: Option<&str>)
    ensures
        match r {
            Some(s) => valid_utf8(b@) && s@ == decode_utf8(b@),
            None => !valid_utf8(b@),
        },
{
    std::str::from_utf8(b).ok()
}

/// The text that the bytes `b` encode, when they are valid UTF-8.
pub fn text_of_bytes(b: &[u8]) -> (r: Option<String>)
    ensures
        match r {
            Some(s) => valid_utf8(b@) && s@ == decode_utf8(b@),
            None => !valid_utf8(b@),
        },
{
    match utf8_text(b) {
        Some(s) => Some(String::from_str(s)),
        None => None,
    }
}

proof fn lemma_header_found(hs: Seq<HeaderView>, k: Seq<char>, i: int)
    requires
        0 <= i < hs.len(),
        eq_ignore_case(hs[i].0, k),
        forall|j: int| 0 <= j < i ==> !eq_ignore_case(#[trigger] hs[j].0, k),
    ensures
        header_index(hs, k) == i,
{
    let p = |h: HeaderView| eq_ignore_case(h.0, k);
    assert forall|j: int| 0 <= j < i implies !p(#[trigger] hs[j]) by {
        assert(!eq_ignore_case(hs[j].0, k));
    }
    lemma_first_index_at(hs, p, i);
}

proof fn lemma_header_absent(hs: Seq<HeaderView>, k: Seq<char>)
    requires
        forall|j: int| 0 <= j < hs.len() ==> !eq_ignore_case(#[trigger] hs[j].0, k),
    ensures
        header_index(hs, k) == -1,
{
    let p = |h: HeaderView| eq_ignore_case(h.0, k);
    assert forall|j: int| 0 <= j < hs.len() implies !p(#[trigger] hs[j]) by {
        assert(!eq_ignore_case(hs[j].0, k));
    }
    lemma_first_index_none(hs, p);
}

pub proof fn lemma_header_block_push(hs: Seq<HeaderView>, h: HeaderView)
    ensures
        header_block(hs.push(h)) == header_block(hs) + header_line(h) + seq!['\n'],
    decreases hs.len(),
{
    if hs.len() == 0 {
        assert(hs.push(h).drop_first() =~= hs);
        assert(hs.push(h)[0] == h);
        assert(header_block(hs) == Seq::<char>::empty());
        assert(header_block(hs.push(h)) =~= header_line(h) + seq!['\n']);
    } else {
        lemma_header_block_push(hs.drop_first(), h);
        assert(hs.push(h).drop_first() =~= hs.drop_first().push(h));
        assert(header_block(hs.push(h)) =~= header_block(hs) + header_line(h) + seq!['\n']);
    }
}

impl Default for Buffer {
    /// A `200 OK` response of version 1.1, with no headers and no body.
    fn default() -> (r: Self)
        ensures
            r@ == (BufferView {
                start: StartView::Response {
                    version: Version::V1_1,
                    status: 200,
                    reason: reason_of(200),
                },
                headers: seq![],
                body: seq![],
            }),
            r@.wf(),
    {
        let r = Buffer {
            start_line: StartLine::response(Version::V1_1, 200, None),
            headers: Vec::new(),
            body: Vec::new(),
        };
        assert(headers_view(r.headers@) =~= Seq::<HeaderView>::empty());
        assert(valid_utf8(Seq::<u8>::empty()));
        r
    }
}

impl Buffer {
    pub fn with_start_line(self, v: StartLine) -> (r: Self)
        ensures
            r@ == (BufferView { start: v@, ..self@ }),
    {
        Buffer { start_line: v, ..self }
    }

    /// Replaces the headers by `v`, in order.
    pub fn with_headers<const N: usize>(self, v: [(&str, &str); N]) -> (r: Self)
        ensures
            r@ == (BufferView {
                headers: Seq::new(N as nat, |i: int| (v@[i].0@, v@[i].1@)),
                ..self@
            }),
    {
        let mut hs: Vec<(String, String)> = Vec::new();
        let mut i: usize = 0;
        while i < N
            invariant
                i <= N,
                v@.len() == N,
                hs@.len() == i,
                headers_view(hs@) =~= Seq::new(i as nat, |j: int| (v@[j].0@, v@[j].1@)),
            decreases N - i,
        {
            let (k, x) = v[i];
            assert(v@[i as int] == (k, x));
            let ghost prev = hs@;
            let ghost want = Seq::new((i + 1) as nat, |j: int| (v@[j].0@, v@[j].1@));
            assert forall|j: int| 0 <= j < i implies headers_view(prev)[j] == want[j] by {
                assert(headers_view(prev)[j] == Seq::new(i as nat, |j: int| (v@[j].0@, v@[j].1@))[j]);
            }
            hs.push((String::from_str(k), String::from_str(x)));
            assert(hs@ =~= prev.push(hs@[i as int]));
            assert(headers_view(hs@)[i as int] == (k@, x@));
            assert forall|j: int| 0 <= j < i implies headers_view(hs@)[j] == headers_view(prev)[j] by {
                assert(hs@[j] == prev[j]);
            }
            i += 1;
            assert(headers_view(hs@) =~= want);
        }
        Buffer { headers: hs, ..self }
    }

    /// Appends the header `(k, v)`.
    pub fn with_header(self, k: &str, v: &str) -> (r: Self)
        ensures
            r@ == (BufferView { headers: self@.headers.push((k@, v@)), ..self@ }),
    {
        let mut b = self;
        b.headers.push((String::from_str(k), String::from_str(v)));
        assert(headers_view(b.headers@) =~= self@.headers.push((k@, v@)));
        b
    }

    /// Replaces the body by the text `v` and sets `Content-Length`.
    pub fn with_body(self, v: &str) -> (r: Self)
        ensures
            r@ == self@.with_body_text(v@),
            r@.wf(),
    {
        let mut b = self;
        b.body = Vec::new();
        b.append_body(v);
        assert(Seq::<u8>::empty() + encode_utf8(v@) =~= encode_utf8(v@));
        b
    }

    /// Appends the text `v` to the body and sets `Content-Length` to the new
    /// byte length.
    pub fn append_body(&mut self, v: &str)
        ensures
            final(self)@ == old(self)@.append_text(v@),
            old(self)@.wf() ==> final(self)@.wf(),
    {
        let bytes = v.as_bytes();
        let ghost old_body = self.body@;
        let mut i: usize = 0;
        while i < bytes.len()
            invariant
                i <= bytes@.len(),
                bytes@ == encode_utf8(v@),
                self.body@ == old_body + bytes@.take(i as int),
                self.start_line == old(self).start_line,
                self.headers == old(self).headers,
            decreases bytes@.len() - i,
        {
            self.body.push(bytes[i]);
            i += 1;
            assert(self.body@ =~= old_body + bytes@.take(i as int));
        }
        assert(bytes@.take(i as int) =~= bytes@);
        proof {
            vstd::utf8::encode_utf8_valid_utf8(v@);
            if valid_utf8(old_body) {
                vstd::utf8::valid_utf8_concat(old_body, encode_utf8(v@));
            }
        }
        let n = decimal_string(self.body.len() as u128);
        self.set_header("Content-Length", n.as_str());
        proof {
            reveal_strlit("Content-Length");
            assert("Content-Length"@ =~= content_length());
        }
    }

    /// Sets the header named `k` (letter case aside) to `v`, or appends it.
    pub fn set_header(&mut self, k: &str, v: &str)
        ensures
            final(self)@ == (BufferView {
                headers: set_header_spec(old(self)@.headers, k@, v@),
                ..old(self)@
            }),
    {
        let ghost hs = headers_view(self.headers@);
        let mut i: usize = 0;
        while i < self.headers.len()
            invariant
                i <= self.headers@.len(),
                self.headers == old(self).headers,
                self.start_line == old(self).start_line,
                self.body == old(self).body,
                hs == headers_view(self.headers@),
                forall|j: int| 0 <= j < i ==> !eq_ignore_case(#[trigger] hs[j].0, k@),
            decreases self.headers@.len() - i,
        {
            if eq_ignore_ascii_case(self.headers[i].0.as_str(), k) {
                proof {
                    lemma_header_found(hs, k@, i as int);
                }
                let name = self.headers[i].0.clone();
                self.headers[i] = (name, String::from_str(v));
                assert(headers_view(self.headers@) =~= hs.update(i as int, (hs[i as int].0, v@)));
                return;
            }
            i += 1;
        }
        proof {
            lemma_header_absent(hs, k@);
        }
        self.headers.push((String::from_str(k), String::from_str(v)));
        assert(headers_view(self.headers@) =~= hs.push((k@, v@)));
    }

    pub fn start_line(&self) -> (r: &StartLine)
        ensures
            r@ == self@.start,
    {
        &self.start_line
    }

    pub fn start_line_mut(&mut self) -> (r: &mut StartLine)
        ensures
            r@ == old(self)@.start,
            final(self)@ == (BufferView { start: final(r)@, ..old(self)@ }),
    {
        &mut self.start_line
    }

    /// The value of the first header named `k`, letter case aside.
    pub fn header(&self, k: &str) -> (r: Option<&String>)
        ensures
            match r {
                Some(v) => header_value(self@.headers, k@) == Some(v@),
                None => header_value(self@.headers, k@) is None,
            },
    {
        let ghost hs = self@.headers;
        let mut i: usize = 0;
        while i < self.headers.len()
            invariant
                i <= self.headers@.len(),
                hs == headers_view(self.headers@),
                forall|j: int| 0 <= j < i ==> !eq_ignore_case(#[trigger] hs[j].0, k@),
            decreases self.headers@.len() - i,
        {
            if eq_ignore_ascii_case(self.headers[i].0.as_str(), k) {
                proof {
                    lemma_header_found(hs, k@, i as int);
                }
                return Some(&self.headers[i].1);
            }
            i += 1;
        }
        proof {
            lemma_header_absent(hs, k@);
        }
        None
    }

    pub fn headers(&self) -> (r: &Vec<(String, String)>)
        ensures
            headers_view(r@) == self@.headers,
    {
        &self.headers
    }

    pub fn body(&self) -> (r: &Vec<u8>)
        ensures
            r@ == self@.body,
    {
        &self.body
    }

    /// Reads a message from its text.
    pub fn parse(s: &str) -> (r: Result<Buffer, Error>)
        ensures
            match r {
                Ok(b) => parse_message(s@) == Ok::<BufferView, ErrorKind>(b@) && b@.wf(),
                Err(e) => parse_message(s@) == Err::<BufferView, ErrorKind>(e.spec_kind()),
            },
    {
        let v = chars_of(s);
        let ls = line_spans(v.as_slice());
        let ghost lv = lines(s@);
        if ls.len() == 0 {
            return Err(Error::with_message(ErrorKind::Parse, "invalid http buffer, missing start line"));
        }
        let (a0, b0) = ls[0];
        assert(span_text(v@, ls@[0]) == lv[0]);
        let start = match StartLine::from_chars(v.as_slice(), a0, b0, s) {
            Ok(x) => x,
            Err(e) => { return Err(e); },
        };
        let ghost rest = lv.drop_first();
        let mut k: usize = 1;
        while k < ls.len() && ls[k].0 != ls[k].1
            invariant
                1 <= k <= ls@.len(),
                ls@.len() == lv.len(),
                rest == lv.drop_first(),
                forall|q: int| 0 <= q < ls@.len() ==> #[trigger] span_text(v@, ls@[q]) == lv[q],
                forall|q: int| 0 <= q < ls@.len() ==> (#[trigger] ls@[q]).0 <= ls@[q].1 <= v@.len(),
                forall|q: int| 0 <= q < k - 1 ==> (#[trigger] rest[q]).len() > 0,
            decreases ls@.len() - k,
        {
            assert(span_text(v@, ls@[k as int]) == lv[k as int]);
            assert(rest[k - 1] == lv[k as int]);
            k += 1;
        }
        proof {
            let p = |l: Seq<char>| l.len() == 0;
            if k < ls@.len() {
                assert(span_text(v@, ls@[k as int]) == lv[k as int]);
                assert(rest[k - 1] == lv[k as int]);
                assert forall|q: int| 0 <= q < k - 1 implies !p(#[trigger] rest[q]) by {}
                lemma_first_index_at(rest, p, k - 1);
            } else {
                assert forall|q: int| 0 <= q < rest.len() implies !p(#[trigger] rest[q]) by {}
                lemma_first_index_none(rest, p);
            }
        }
        assert(blank_index(rest) == k - 1);
        let ghost hl = rest.take(k - 1);
        let mut headers: Vec<(String, String)> = Vec::new();
        let mut i: usize = 1;
        while i < k
            invariant
                1 <= i <= k <= ls@.len(),
                ls@.len() == lv.len(),
                v@ == s@,
                lv == lines(s@),
                parse_start(lv[0]) == Ok::<StartView, ErrorKind>(start@),
                blank_index(rest) == k - 1,
                rest == lv.drop_first(),
                hl == rest.take(k - 1),
                forall|q: int| 0 <= q < ls@.len() ==> #[trigger] span_text(v@, ls@[q]) == lv[q],
                forall|q: int| 0 <= q < ls@.len() ==> (#[trigger] ls@[q]).0 <= ls@[q].1 <= v@.len(),
                headers_view(headers@) =~= hl.take(i - 1).map_values(|l: Seq<char>| parse_header(l)),
                forall|q: int| 0 <= q < i - 1 ==> index_of(#[trigger] hl[q], ':') >= 0,
            decreases k - i,
        {
            let (a, b) = ls[i];
            let ghost line = hl[i - 1];
            assert(line == lv[i as int]);
            assert(span_text(v@, ls@[i as int]) == lv[i as int]);
            let j = find_in(v.as_slice(), a, b, ':');
            if j == b {
                proof {
                    assert(v@.subrange(a as int, j as int) == line);
                    crate::text::lemma_index_of_none(line, ':');
                    assert(index_of(hl[i - 1], ':') < 0);
                    assert(0 <= i - 1 < hl.len());
                }
                return Err(Error::with_message(ErrorKind::Parse, "invalid header"));
            }
            proof {
                assert(line.take(j - a) =~= v@.subrange(a as int, j as int));
                assert(line[j - a] == v@[j as int]);
                lemma_index_of_at(line, ':', j - a);
            }
            let mut p = j + 1;
            while p < b && is_space_char(v[p])
                invariant
                    j + 1 <= p <= b <= v@.len(),
                    trim_start(v@.subrange(j + 1, b as int)) == trim_start(v@.subrange(p as int, b as int)),
                decreases b - p,
            {
                assert(v@.subrange(p + 1, b as int) =~= v@.subrange(p as int, b as int).drop_first());
                p += 1;
            }
            assert(line.skip(j - a + 1) =~= v@.subrange(j + 1, b as int));
            assert(trim_start(v@.subrange(p as int, b as int)) == v@.subrange(p as int, b as int));
            let name = String::from_str(s.substring_char(a, j));
            let value = String::from_str(s.substring_char(p, b));
            assert(parse_header(line) == (name@, value@));
            let ghost prev = headers@;
            headers.push((name, value));
            proof {
                assert(hl.take(i as int) =~= hl.take(i - 1).push(line));
                assert(headers_view(headers@) =~= headers_view(prev).push((name@, value@)));
            }
            i += 1;
        }
        assert(hl.take(k - 1) =~= hl);
        let mut body = String::new();
        if k < ls.len() {
            let mut m: usize = k + 1;
            assert(body@ =~= join(lv.subrange(k + 1, m as int), '\n')) by {
                assert(lv.subrange(k + 1, m as int) =~= Seq::<Seq<char>>::empty());
            }
            while m < ls.len()
                invariant
                    k + 1 <= m <= ls@.len(),
                    ls@.len() == lv.len(),
                    v@ == s@,
                    forall|q: int| 0 <= q < ls@.len() ==> #[trigger] span_text(v@, ls@[q]) == lv[q],
                    forall|q: int| 0 <= q < ls@.len() ==> (#[trigger] ls@[q]).0 <= ls@[q].1 <= v@.len(),
                    body@ == join(lv.subrange(k + 1, m as int), '\n'),
                decreases ls@.len() - m,
            {
                let ghost prev = lv.subrange(k + 1, m as int);
                if m > k + 1 {
                    proof {
                        reveal_strlit("\n");
                    }
                    body.append("\n");
                }
                let (a, b) = ls[m];
                assert(span_text(v@, ls@[m as int]) == lv[m as int]);
                body.append(s.substring_char(a, b));
                proof {
                    crate::text::lemma_join_push(prev, lv[m as int], '\n');
                    assert(lv.subrange(k + 1, m + 1) =~= prev.push(lv[m as int]));
                }
                m += 1;
            }
            assert(lv.subrange(k + 1, lv.len() as int) =~= rest.skip(k as int));
        }
        let b = Buffer { start_line: start, headers, body: Vec::new() };
        Ok(b.with_body(body.as_str()))
    }

    /// The start line and the header lines, as text.
    fn head_string(&self) -> (r: String)
        ensures
            r@ == self@.head_text(),
    {
        let mut out = self.start_line.to_text();
        out.append("\n");
        proof {
            reveal_strlit("\n");
            reveal_strlit(": ");
        }
        let ghost hs = self@.headers;
        assert("\n"@ =~= seq!['\n']);
        assert(": "@ =~= seq![':', ' ']);
        let ghost st = start_text(self@.start) + seq!['\n'];
        assert(out@ =~= st + header_block(hs.take(0)));
        let mut i: usize = 0;
        while i < self.headers.len()
            invariant
                i <= self.headers@.len(),
                hs == headers_view(self.headers@),
                out@ == st + header_block(hs.take(i as int)),
            decreases self.headers@.len() - i,
        {
            let ghost before = out@;
            proof {
                reveal_strlit("\n");
                reveal_strlit(": ");
                assert("\n"@ =~= seq!['\n']);
                assert(": "@ =~= seq![':', ' ']);
            }
            assert(hs[i as int] == (self.headers@[i as int].0@, self.headers@[i as int].1@));
            out.append(self.headers[i].0.as_str());
            out.append(": ");
            out.append(self.headers[i].1.as_str());
            out.append("\n");
            assert(out@ =~= before + header_line(hs[i as int]) + seq!['\n']);
            proof {
                lemma_header_block_push(hs.take(i as int), hs[i as int]);
                assert(hs.take(i + 1) =~= hs.take(i as int).push(hs[i as int]));
            }
            i += 1;
            assert(out@ =~= st + header_block(hs.take(i as int)));
        }
        assert(hs.take(i as int) =~= hs);
        out
    }

    /// Appends the wire form to `w`.
    pub fn write_to(&self, w: &mut Vec<u8>)
        ensures
            final(w)@ == old(w)@ + self@.wire_bytes(),
    {
        let head = self.head_string();
        let bytes = head.as_str().as_bytes();
        push_bytes(w, bytes);
        if self.body.len() > 0 {
            w.push(10u8);
            push_bytes(w, self.body.as_slice());
        }
        assert(w@ =~= old(w)@ + self@.wire_bytes());
    }

    /// The wire form as text.
    pub fn to_string(&self) -> (r: String)
        requires
            self@.wf(),
        ensures
            r@ == self@.wire_text(),
    {
        let mut out = self.head_string();
        if self.body.len() > 0 {
            proof {
                reveal_strlit("\n");
            }
            out.append("\n");
            match utf8_text(self.body.as_slice()) {
                Some(t) => out.append(t),
                None => {},
            }
        }
        assert(out@ =~= self@.wire_text());
        out
    }
}

fn push_bytes(w: &mut Vec<u8>, b: &[u8])
    ensures
        final(w)@ == old(w)@ + b@,
{
    let mut i: usize = 0;
    while i < b.len()
        invariant
            i <= b@.len(),
            w@ == old(w)@ + b@.take(i as int),
        decreases b@.len() - i,
    {
        w.push(b[i]);
        i += 1;
        assert(w@ =~= old(w)@ + b@.take(i as int));
    }
    assert(b@.take(i as int) =~= b@);
}

} // verus!
