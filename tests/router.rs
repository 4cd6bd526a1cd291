use mocker_core::buffer::Buffer;
use mocker_core::config::{Route, RouteKind};
use mocker_core::error::ErrorKind;
use mocker_core::http::{Method, StartLine, Version};
use mocker_core::middleware::{Middleware, Middlewares};
use mocker_core::request::Request;
use mocker_core::response::Response;
use mocker_core::router::{Lookup, RouteHandler, Routed, Router, StoreOp, StoreRouteHandler};
use mocker_core::status::Status;
use mocker_core::store::Store;
use mocker_core::value::Value;

fn request(method: Method, target: &str) -> Request {
    Request::new(Buffer::default().with_start_line(StartLine::request(method, target, Version::V1_1)))
}

fn store_route(endpoint: &str) -> Route {
    Route::new(
        vec![Method::Get, Method::Post],
        endpoint,
        RouteKind::Store { path: "/tmp/users.json".to_string(), identifier: "id".to_string() },
    )
}

fn handler() -> StoreRouteHandler {
    StoreRouteHandler::new(store_route("/users"), "/tmp/users.json", "id")
}

fn status_of(res: &Response) -> u16 {
    match res.buffer().start_line() {
        StartLine::Response(r) => r.status,
        StartLine::Request(_) => panic!("not a response"),
    }
}

#[test]
fn dispatch_unregistered_path_is_not_found() {
    let router = Router::new().with_routes(vec![store_route("/users")]);
    match router.dispatch(&request(Method::Get, "/other?id=1")) {
        Routed::NotFound(res) => {
            assert_eq!(status_of(&res), 404);
            assert!(res.buffer().body().is_empty());
        }
        Routed::Handler(_) => panic!("expected no handler"),
    }
    match router.dispatch(&request(Method::Delete, "/users")) {
        Routed::NotFound(res) => assert_eq!(status_of(&res), 404),
        Routed::Handler(_) => panic!("expected no handler"),
    }
}

#[test]
fn dispatch_uses_last_registration() {
    let mut router = Router::new();
    router.set(&[Method::Get, Method::Post], "/a", RouteHandler::Store(handler()));
    let second = StoreRouteHandler::new(store_route("/a"), "/tmp/second.json", "key");
    router.set(&[Method::Post], "/a", RouteHandler::Store(second));
    match router.dispatch(&request(Method::Post, "/a?x")) {
        Routed::Handler(i) => match router.handler_at(i) {
            RouteHandler::Store(h) => assert_eq!(h.store().path(), "/tmp/second.json"),
            RouteHandler::Script(_) => panic!("wrong kind"),
        },
        Routed::NotFound(_) => panic!("expected a handler"),
    }
    match router.handler(Method::Get, "/a") {
        Some(RouteHandler::Store(h)) => assert_eq!(h.store().path(), "/tmp/users.json"),
        _ => panic!("expected the first handler"),
    }
    assert!(router.handler(Method::Get, "/A").is_none());
}

#[test]
fn get_without_identifier_is_bad_request_and_unknown_is_not_found() {
    let h = handler();
    let store = h.store();
    match h.load_entity(&store, &request(Method::Get, "/users")) {
        Lookup::Reply(res) => assert_eq!(status_of(&res), 400),
        Lookup::Found(_) => panic!("nothing to find"),
    }
    match h.load_entity(&store, &request(Method::Get, "/users?id")) {
        Lookup::Reply(res) => assert_eq!(status_of(&res), 400),
        Lookup::Found(_) => panic!("nothing to find"),
    }
    match h.load_entity(&store, &request(Method::Get, "/users?ID=9")) {
        Lookup::Reply(res) => assert_eq!(status_of(&res), 404),
        Lookup::Found(_) => panic!("nothing to find"),
    }
}

#[test]
fn post_then_get_then_conflict() {
    let h = handler();
    let mut store: Store = h.store();
    let joe = vec![("id".to_string(), Value::Unsigned(42)), ("name".to_string(), Value::String("Joe".to_string()))];
    let post = request(Method::Post, "/users");
    assert_eq!(h.plan(&post).unwrap(), StoreOp::Create);
    let res = h.create_entity(&mut store, joe.clone()).unwrap();
    assert_eq!(status_of(&res), 201);
    assert_eq!(res.buffer().body(), &b"42".to_vec());
    assert_eq!(res.buffer().header("Content-Type").unwrap(), "application/json");
    let get = request(Method::Get, "/users?id=42");
    assert_eq!(h.plan(&get).unwrap(), StoreOp::Load);
    match h.load_entity(&store, &get) {
        Lookup::Found(rec) => assert_eq!(rec, &joe),
        Lookup::Reply(_) => panic!("expected the record"),
    }
    let err = h.create_entity(&mut store, joe.clone()).unwrap_err();
    assert_eq!(err.kind(), ErrorKind::Api(Status::Conflict));
    assert_eq!(status_of(&Response::from_error(&err)), 409);
    assert_eq!(store.items().len(), 1);
}

#[test]
fn post_without_identifier_counts_as_null() {
    let h = handler();
    let mut store = h.store();
    let anon = vec![("name".to_string(), Value::String("Anon".to_string()))];
    let res = h.create_entity(&mut store, anon.clone()).unwrap();
    assert_eq!(res.buffer().body(), &b"null".to_vec());
    assert!(h.create_entity(&mut store, anon).is_ok());
    assert_eq!(store.items().len(), 2);
}

#[test]
fn unsupported_store_methods() {
    let h = handler();
    assert_eq!(h.plan(&request(Method::Put, "/users")).unwrap_err().kind(), ErrorKind::Api(Status::NotImplemented));
    assert_eq!(h.plan(&request(Method::Head, "/users")).unwrap_err().kind(), ErrorKind::Unknown);
}

#[test]
fn query_parameters() {
    let req = request(Method::Get, "/p?a=1&flag&B=x=y&");
    assert_eq!(req.path(), Some("/p"));
    assert_eq!(req.query(), Some("a=1&flag&B=x=y&"));
    let ps = req.query_params();
    assert_eq!(ps.len(), 4);
    assert_eq!(ps[1], ("flag".to_string(), None));
    assert_eq!(ps[3], ("".to_string(), None));
    assert_eq!(req.query_param("b"), Some(("B".to_string(), Some("x=y".to_string()))));
    assert_eq!(req.query_param("c"), None);
    let plain = request(Method::Get, "/p");
    assert_eq!(plain.path(), Some("/p"));
    assert_eq!(plain.query(), None);
    assert!(plain.query_params().is_empty());
}

#[test]
fn body_format_and_text() {
    let req = request(Method::Post, "/p").with_header("content-type", "Application/JSON").with_body("  {\"a\":1}\n ");
    assert_eq!(req.body_format().unwrap(), mocker_core::store::PayloadFormat::Json);
    assert_eq!(req.body_text().unwrap(), "{\"a\":1}\n");
    let none = request(Method::Post, "/p");
    assert_eq!(none.body_format().unwrap_err().kind(), ErrorKind::Api(Status::BadRequest));
    let xml = request(Method::Post, "/p").with_header("Content-Type", "text/xml");
    assert_eq!(xml.body_format().unwrap_err().kind(), ErrorKind::Api(Status::InternalServerError));
}

#[test]
fn request_from_bytes() {
    let req = Request::from_bytes(b"GET /x HTTP/1.1\r\n\r\n").unwrap();
    assert_eq!(req.method(), Some(Method::Get));
    assert_eq!(Request::from_bytes(&[0xff, 0xfe]).unwrap_err().kind(), ErrorKind::IO);
}

#[test]
fn error_becomes_response() {
    let e = mocker_core::error::Error::with_message(ErrorKind::Parse, "bad");
    let res = Response::from_error(&e);
    assert_eq!(status_of(&res), 500);
    assert_eq!(res.buffer().body(), &b"bad".to_vec());
    let e = mocker_core::error::Error::new(ErrorKind::Api(Status::Gone), None, None);
    assert_eq!(status_of(&Response::from_error(&e)), 410);
    assert_eq!(e.kind_as_str(), "api");
}

#[test]
fn cors_middleware_allows_every_origin() {
    let registry = Middlewares::new();
    let mut m = registry.create("CORS").unwrap();
    let res = m.execute(&request(Method::Get, "/"), Response::default()).unwrap();
    assert_eq!(res.buffer().header("access-control-allow-origin").unwrap(), "*");
    assert_eq!(m.name(), "Cors");
    assert_eq!(registry.create("gzip").unwrap_err().kind(), ErrorKind::Unknown);
}

#[test]
fn route_accessors() {
    let r = store_route("/users");
    assert_eq!(r.kind_str(), "store");
    assert_eq!(r.endpoint(), "/users");
    assert_eq!(r.methods(), &vec![Method::Get, Method::Post]);
}

#[test]
fn script_routes_answer_not_implemented() {
    let s = mocker_core::router::ScriptRouteHandler::new(store_route("/s"), "x.js", "f");
    let e = s.handle(&request(Method::Get, "/s")).unwrap_err();
    assert_eq!(status_of(&Response::from_error(&e)), 501);
}

#[test]
fn registry_register_replaces_by_name() {
    let mut registry = Middlewares::new();
    assert_eq!(registry.constructor("cors"), Some(mocker_core::middleware::MiddlewareKind::Cors));
    registry.register("CORS", mocker_core::middleware::MiddlewareKind::Cors);
    registry.register("Other", mocker_core::middleware::MiddlewareKind::Cors);
    assert_eq!(registry.constructor("other"), Some(mocker_core::middleware::MiddlewareKind::Cors));
    assert_eq!(registry.constructor("none"), None);
}

#[test]
fn request_and_response_read_as_messages() {
    let mut res = Response::default().with_body("hi");
    res.set_header("X-A", "1");
    assert_eq!(res.header("content-length").unwrap(), "2");
    assert_eq!(res.to_string(), "HTTP/1.1 200 OK\nContent-Length: 2\nX-A: 1\n\nhi");
    let req = request(Method::Get, "/x");
    assert!(req.body().is_empty());
}

#[test]
fn post_without_identifier_is_appended_even_next_to_a_null_identifier() {
    let h = handler();
    let mut store = h.store();
    store.push(vec![("id".to_string(), Value::Null)]);
    let joe = vec![("name".to_string(), Value::String("Joe".to_string()))];
    let res = h.create_entity(&mut store, joe.clone()).unwrap();
    assert_eq!(status_of(&res), 201);
    assert_eq!(res.buffer().body(), &b"null".to_vec());
    assert_eq!(store.items()[1], joe);
    // a record that does name its identifier is still checked
    let dup = vec![("ID".to_string(), Value::String("null".to_string()))];
    assert_eq!(h.create_entity(&mut store, dup).unwrap_err().kind(), ErrorKind::Api(Status::Conflict));
}

#[test]
fn the_two_bad_request_bodies_differ() {
    let h = handler();
    let store = h.store();
    let body_of = |target: &str| match h.load_entity(&store, &request(Method::Get, target)) {
        Lookup::Reply(res) => (status_of(&res), res.buffer().body().clone()),
        Lookup::Found(_) => panic!("nothing to find"),
    };
    let (s1, b1) = body_of("/users");
    let (s2, b2) = body_of("/users?id");
    assert_eq!((s1, s2), (400, 400));
    assert_eq!(b1, b"identifier not found in query params".to_vec());
    assert_eq!(b2, b"identifier was found in query params but has no value".to_vec());
    assert_ne!(b1, b2);
}

#[test]
fn pointed_body_marks_the_place() {
    let p = mocker_core::request::pointed_body("{\n  \"a\": x\n}", 2, 8);
    assert_eq!(p, "{\n  \"a\": x\n       \x1b[0;31m⮬\x1b[0m \x1b[1mhere\x1b[0m\n}");
    let q = mocker_core::request::pointed_body("ab", 9, 1);
    assert_eq!(q, "ab\n\x1b[0;31m⮬\x1b[0m \x1b[1mhere\x1b[0m");
}

#[test]
fn two_registrations_last_one_wins_per_method() {
    let mut router = Router::new();
    router.set(&[Method::Get, Method::Post], "/u", RouteHandler::Store(handler()));
    let second = StoreRouteHandler::new(store_route("/u"), "/tmp/second.json", "id");
    router.set(&[Method::Get], "/u", RouteHandler::Store(second));
    match router.dispatch(&request(Method::Get, "/u")) {
        Routed::Handler(i) => assert_eq!(i, 1),
        Routed::NotFound(_) => panic!("expected a handler"),
    }
    match router.dispatch(&request(Method::Post, "/u")) {
        Routed::Handler(i) => assert_eq!(i, 0),
        Routed::NotFound(_) => panic!("expected a handler"),
    }
}

#[test]
fn post_answers_a_string_identifier_as_json() {
    let h = handler();
    let mut store = h.store();
    let rec = vec![("id".to_string(), Value::String("abc".to_string()))];
    let res = h.create_entity(&mut store, rec).unwrap();
    assert_eq!(status_of(&res), 201);
    assert_eq!(res.buffer().body(), &b"\"abc\"".to_vec());
    let rec = vec![("id".to_string(), Value::String("a\"b\\\n".to_string()))];
    let res = h.create_entity(&mut store, rec).unwrap();
    assert_eq!(res.buffer().body(), &b"\"a\\\"b\\\\\\n\"".to_vec());
}
