use mocker_core::buffer::Buffer;
use mocker_core::error::ErrorKind;
use mocker_core::http::{Method, StartLine, Version};
use mocker_core::response::Response;
use mocker_core::status::Status;

#[test]
fn response() {
    let buf = Buffer::default()
        .with_start_line(StartLine::response(Version::V1_0, 200 as u16, Some("OK".to_string())))
        .with_headers([("Content-Type", "application/json")])
        .with_body("test");
    let buf = buf.to_string();
    assert_eq!(
        buf.as_str(),
        "HTTP/1.0 200 OK\nContent-Type: application/json\nContent-Length: 4\n\ntest"
    );
}

#[test]
fn request() {
    let buf = Buffer::default()
        .with_start_line(StartLine::request(Method::Get, "/", Version::V1_0))
        .with_headers([("Content-Type", "application/json")])
        .with_body("test");
    let buf = buf.to_string();
    assert_eq!(
        buf.as_str(),
        "GET / HTTP/1.0\nContent-Type: application/json\nContent-Length: 4\n\ntest"
    );
}

#[test]
fn response_built_with_status_serializes_exactly() {
    let res = Response::default()
        .with_version(Version::V1_0)
        .with_status(Status::OK)
        .with_header("Content-Type", "application/json")
        .with_body("test");
    assert_eq!(
        res.buffer().to_string(),
        "HTTP/1.0 200 OK\nContent-Type: application/json\nContent-Length: 4\n\ntest"
    );
}

#[test]
fn round_trip_of_a_request() {
    let buf = Buffer::default()
        .with_start_line(StartLine::request(Method::Post, "/users?id=3", Version::V1_1))
        .with_header("Content-Type", "application/json")
        .with_body("{\"id\":3}\n\n{}");
    let text = buf.to_string();
    let back = Buffer::parse(text.as_str()).unwrap();
    assert_eq!(back.to_string(), text);
    assert_eq!(back.body(), buf.body());
    assert_eq!(back.headers(), buf.headers());
}

#[test]
fn round_trip_of_a_response_without_body() {
    let buf = Buffer::default()
        .with_start_line(StartLine::response(Version::V2, 404, Some("Missing".to_string())))
        .with_body("");
    let text = buf.to_string();
    assert_eq!(text, "HTTP/2 404 Missing\nContent-Length: 0\n");
    let back = Buffer::parse(text.as_str()).unwrap();
    assert_eq!(back.to_string(), text);
}

#[test]
fn parse_accepts_crlf_and_trims_header_values() {
    let b = Buffer::parse("get /a?x=1 http/1.1\r\nHost:   here\r\n\r\nline one\r\n\r\nline two").unwrap();
    match b.start_line() {
        StartLine::Request(r) => {
            assert_eq!(r.method, Method::Get);
            assert_eq!(r.target, "/a?x=1");
            assert_eq!(r.version, Version::V1_1);
        }
        StartLine::Response(_) => panic!("expected a request line"),
    }
    assert_eq!(b.header("host").unwrap(), "here");
    assert_eq!(b.body(), &b"line one\n\nline two".to_vec());
    assert_eq!(b.header("content-length").unwrap(), "18");
}

#[test]
fn parse_status_line_fills_reason_from_table() {
    let b = Buffer::parse("HTTP/1.1 404").unwrap();
    match b.start_line() {
        StartLine::Response(r) => {
            assert_eq!(r.status, 404);
            assert_eq!(r.reason.as_deref(), Some("Not Found"));
        }
        StartLine::Request(_) => panic!("expected a status line"),
    }
    let b = Buffer::parse("HTTP/1.1 299").unwrap();
    match b.start_line() {
        StartLine::Response(r) => assert_eq!(r.reason, None),
        StartLine::Request(_) => panic!("expected a status line"),
    }
    let b = Buffer::parse("HTTP/1.1 +200 Fine").unwrap();
    match b.start_line() {
        StartLine::Response(r) => {
            assert_eq!(r.status, 200);
            assert_eq!(r.reason.as_deref(), Some("Fine"));
        }
        StartLine::Request(_) => panic!("expected a status line"),
    }
}

#[test]
fn multi_word_reason_keeps_first_word() {
    let b = Buffer::parse("HTTP/1.1 404 Not Found").unwrap();
    match b.start_line() {
        StartLine::Response(r) => assert_eq!(r.reason.as_deref(), Some("Not")),
        StartLine::Request(_) => panic!("expected a status line"),
    }
}

#[test]
fn parse_errors() {
    assert_eq!(Buffer::parse("").unwrap_err().kind(), ErrorKind::Parse);
    assert_eq!(Buffer::parse("GET").unwrap_err().kind(), ErrorKind::Parse);
    assert_eq!(Buffer::parse("FETCH / HTTP/1.1").unwrap_err().kind(), ErrorKind::Parse);
    assert_eq!(Buffer::parse("GET /").unwrap_err().kind(), ErrorKind::Parse);
    assert_eq!(Buffer::parse("GET / HTTP/3").unwrap_err().kind(), ErrorKind::Parse);
    assert_eq!(Buffer::parse("HTTP/1.1 abc").unwrap_err().kind(), ErrorKind::Parse);
    assert_eq!(Buffer::parse("HTTP/1.1 70000").unwrap_err().kind(), ErrorKind::Parse);
    assert_eq!(Buffer::parse("HTTPS/1.1 200").unwrap_err().kind(), ErrorKind::Parse);
    assert_eq!(
        Buffer::parse("GET / HTTP/1.1\nno colon here").unwrap_err().kind(),
        ErrorKind::Parse
    );
}

#[test]
fn set_header_twice_with_other_case_keeps_one_entry() {
    let mut b = Buffer::default().with_header("Accept", "text/plain");
    b.set_header("X-Token", "first");
    b.set_header("x-TOKEN", "second");
    let matching: Vec<_> = b
        .headers()
        .iter()
        .filter(|(k, _)| k.eq_ignore_ascii_case("x-token"))
        .collect();
    assert_eq!(matching.len(), 1);
    assert_eq!(matching[0].0, "X-Token");
    assert_eq!(matching[0].1, "second");
    assert_eq!(b.headers().len(), 2);
}

#[test]
fn append_body_recomputes_content_length_in_bytes() {
    let mut b = Buffer::default().with_body("é");
    assert_eq!(b.header("Content-Length").unwrap(), "2");
    b.append_body("abc");
    assert_eq!(b.header("CONTENT-LENGTH").unwrap(), "5");
    assert_eq!(b.headers().len(), 1);
}

#[test]
fn write_to_appends_wire_bytes() {
    let b = Buffer::default().with_header("A", "b");
    let mut w = b"x".to_vec();
    b.write_to(&mut w);
    assert_eq!(w, b"xHTTP/1.1 200 OK\nA: b\n".to_vec());
}

#[test]
fn method_and_version_names() {
    assert_eq!(Method::parse("delete").unwrap(), Method::Delete);
    assert_eq!(Method::Options.repr(), "OPTIONS");
    assert_eq!(Method::parse("GETS").unwrap_err().kind(), ErrorKind::Parse);
    assert_eq!(Version::parse("http/2").unwrap(), Version::V2);
    assert_eq!(Version::V1_0.repr(), "HTTP/1.0");
    assert_eq!(Version::default(), Version::V1_1);
}

#[test]
fn status_table() {
    assert_eq!(Status::Conflict.code(), 409);
    assert_eq!(Status::NotImplemented.text(), "Not Implemented");
    assert_eq!(Status::from_code(201).unwrap().text(), "Created");
    assert!(Status::from_code(299).is_none());
    assert_eq!(Status::ImATeapot.descr().0, 418);
}
