//! Responses: messages whose start line carries a status.

use vstd::prelude::*;

use crate::buffer::{set_header_spec, Buffer, BufferView};
use crate::error::{Error, ErrorKind};
use crate::http::{opt_view, ResponseStart, StartLine, StartView, Version};
use crate::status::{reason_of, Status};

verus! {

/// A response.
#[derive(Clone, Debug)]
pub struct Response(Buffer);

impl View for Response {
    type V = BufferView;

    closed spec fn view(&self) -> BufferView {
        self.0@
    }
}

/// A fresh `1.1` response with status `code` and the table's reason phrase.
pub open spec fn status_view(code: u16) -> BufferView {
    BufferView {
        start: StartView::Response { version: Version::V1_1, status: code, reason: reason_of(code) },
        headers: seq![],
        body: seq![],
    }
}

pub open spec fn content_type() -> Seq<char> {
    seq!['C', 'o', 'n', 't', 'e', 'n', 't', '-', 'T', 'y', 'p', 'e']
}

/// A fresh response with status `code`, a `Content-Type` header and a body.
pub open spec fn payload_view(code: u16, ctype: Seq<char>, body: Seq<char>) -> BufferView {
    BufferView {
        headers: seq![(content_type(), ctype)],
        ..status_view(code)
    }.with_body_text(body)
}

/// The status that an error turns into: its own for API errors, 500 else.
pub open spec fn error_status(k: ErrorKind) -> u16 {
    match k {
        ErrorKind::Api(s) => s.spec_code(),
        _ => 500,
    }
}

/// The response an error turns into: its status, and its message as body.
pub open spec fn error_view(e: Error) -> BufferView {
    let base = status_view(error_status(e.spec_kind()));
    match e.spec_message() {
        Some(m) => base.with_body_text(m@),
        None => base,
    }
}

impl core::ops::Deref for Response {
    type Target = Buffer;

    fn deref(&self) -> &Buffer {
        &self.0
    }
}

impl core::ops::DerefMut for Response {
    fn deref_mut(&mut self) -> &mut Buffer {
        &mut self.0
    }
}

impl Default for Response {
    fn default() -> (r: Self)
        ensures
            r@ == status_view(200),
    {
        Response(Buffer::default())
    }
}

impl Response {
    pub fn new(b: Buffer) -> (r: Self)
        ensures
            r@ == b@,
    {
        Response(b)
    }

    pub fn buffer(&self) -> (r: &Buffer)
        ensures
            r@ == self@,
    {
        &self.0
    }

    /// Sets the status line, keeping the version.
    fn with_start(self, status: u16, reason: Option<String>) -> (r: Self)
        requires
            self@.start is Response,
        ensures
            r@ == (BufferView {
                start: StartView::Response {
                    version: self@.start->Response_version,
                    status,
                    reason: opt_view(reason),
                },
                ..self@
            }),
    {
        let version = match self.0.start_line() {
            StartLine::Response(x) => x.version,
            StartLine::Request(x) => x.version,
        };
        Response(self.0.with_start_line(StartLine::Response(ResponseStart { version, status, reason })))
    }

    /// Sets the status and its reason phrase.
    pub fn with_status(self, status: Status) -> (r: Self)
        requires
            self@.start is Response,
        ensures
            r@ == (BufferView {
                start: StartView::Response {
                    version: self@.start->Response_version,
                    status: status.spec_code(),
                    reason: Some(status.spec_text()),
                },
                ..self@
            }),
    {
        let code = status.code();
        self.with_start(code, Some(String::from_str(status.text())))
    }

    /// Sets the status code, with the table's reason phrase if it has one.
    pub fn with_status_code(self, code: u16) -> (r: Self)
        requires
            self@.start is Response,
        ensures
            r@ == (BufferView {
                start: StartView::Response {
                    version: self@.start->Response_version,
                    status: code,
                    reason: reason_of(code),
                },
                ..self@
            }),
    {
        let reason = crate::http::reason_for(code);
        self.with_start(code, reason)
    }

    pub fn with_version(self, version: Version) -> (r: Self)
        requires
            self@.start is Response,
        ensures
            r@ == (BufferView {
                start: StartView::Response {
                    version,
                    status: self@.start->Response_status,
                    reason: self@.start->Response_reason,
                },
                ..self@
            }),
    {
        let (status, reason) = match self.0.start_line() {
            StartLine::Response(x) => (x.status, x.reason.clone()),
            StartLine::Request(_) => (0, None),
        };
        Response(self.0.with_start_line(StartLine::Response(ResponseStart { version, status, reason })))
    }

    pub fn with_reason(self, r: &str) -> (res: Self)
        requires
            self@.start is Response,
        ensures
            res@ == (BufferView {
                start: StartView::Response {
                    version: self@.start->Response_version,
                    status: self@.start->Response_status,
                    reason: Some(r@),
                },
                ..self@
            }),
    {
        let status = match self.0.start_line() {
            StartLine::Response(x) => x.status,
            StartLine::Request(_) => 0,
        };
        self.with_start(status, Some(String::from_str(r)))
    }

    pub fn with_headers<const N: usize>(self, v: [(&str, &str); N]) -> (r: Self)
        ensures
            r@ == (BufferView {
                headers: Seq::new(N as nat, |i: int| (v@[i].0@, v@[i].1@)),
                ..self@
            }),
    {
        Response(self.0.with_headers(v))
    }

    pub fn with_header(self, k: &str, v: &str) -> (r: Self)
        ensures
            r@ == (BufferView { headers: self@.headers.push((k@, v@)), ..self@ }),
    {
        Response(self.0.with_header(k, v))
    }

    pub fn with_body(self, v: &str) -> (r: Self)
        ensures
            r@ == self@.with_body_text(v@),
            r@.wf(),
    {
        Response(self.0.with_body(v))
    }

    pub fn append_body(&mut self, v: &str)
        ensures
            final(self)@ == old(self)@.append_text(v@),
            old(self)@.wf() ==> final(self)@.wf(),
    {
        self.0.append_body(v);
    }

    pub fn set_header(&mut self, k: &str, v: &str)
        ensures
            final(self)@ == (BufferView {
                headers: set_header_spec(old(self)@.headers, k@, v@),
                ..old(self)@
            }),
    {
        self.0.set_header(k, v);
    }

    /// A response with `status` carrying `body` of media type `ctype`.
    pub fn payload(status: Status, ctype: &str, body: &str) -> (r: Self)
        ensures
            r@ == payload_view(status.spec_code(), ctype@, body@),
    {
        proof {
            reveal_strlit("Content-Type");
            assert("Content-Type"@ =~= content_type());
        }
        let r = Response::default().with_status_code(status.code()).with_header("Content-Type", ctype);
        assert(r@.headers =~= seq![(content_type(), ctype@)]);
        r.with_body(body)
    }

    /// A response with `status` carrying the JSON text `body`.
    pub fn json(status: Status, body: &str) -> (r: Self)
        ensures
            r@ == payload_view(status.spec_code(), "application/json"@, body@),
    {
        Response::payload(status, "application/json", body)
    }

    /// A response with `status` carrying the TOML text `body`.
    pub fn toml(status: Status, body: &str) -> (r: Self)
        ensures
            r@ == payload_view(status.spec_code(), "application/toml"@, body@),
    {
        Response::payload(status, "application/toml", body)
    }

    /// A response with `status` carrying the YAML text `body`.
    pub fn yaml(status: Status, body: &str) -> (r: Self)
        ensures
            r@ == payload_view(status.spec_code(), "application/yaml"@, body@),
    {
        Response::payload(status, "application/yaml", body)
    }

    /// A response in the API's payload format, JSON.
    pub fn api(status: Status, body: &str) -> (r: Self)
        ensures
            r@ == payload_view(status.spec_code(), "application/json"@, body@),
    {
        Response::json(status, body)
    }

    /// The response an error turns into: API errors keep their status, all
    /// others become 500; the message, if any, is the body.
    pub fn from_error(e: &Error) -> (r: Self)
        ensures
            r@ == error_view(*e),
    {
        let code = match e.kind() {
            ErrorKind::Api(s) => s.code(),
            _ => 500,
        };
        let res = Response::default().with_status_code(code);
        match e.message() {
            Some(m) => res.with_body(m.as_str()),
            None => res,
        }
    }
}

} // verus!
