//! Routing: which handler serves a request, and what the store-backed
//! handler answers.

use vstd::prelude::*;

use crate::config::{Route, RouteKind};
use crate::error::{Error, ErrorKind};
use crate::http::{Method, StartView};
use crate::request::{param_index, path_of, request_params, target_of, Request};
use crate::response::{payload_view, status_view, Response};
use crate::status::Status;
use crate::store::{find_index, id_value, Record, Store};
use crate::text::{first_index, lemma_first_index, lemma_first_index_at, lemma_first_index_none};
use crate::value::{json_text, loose_text, Value};

verus! {

/// Serves an endpoint from a file-backed record store.
#[derive(Clone, Debug)]
pub struct StoreRouteHandler {
    route: Route,
    path: String,
    identifier: String,
}

/// Serves an endpoint from a function of a script.
#[derive(Clone, Debug)]
pub struct ScriptRouteHandler {
    route: Route,
    script_path: String,
    func_name: String,
}

/// A handler of one of the route kinds.
#[derive(Clone, Debug)]
pub enum RouteHandler {
    Store(StoreRouteHandler),
    Script(ScriptRouteHandler),
}

/// What a store-backed handler does with a request.
#[derive(Clone, Copy, PartialEq, Eq, Debug, Structural)]
pub enum StoreOp {
    /// Look a record up (GET).
    Load,
    /// Append the record the body holds (POST).
    Create,
}

/// The outcome of a lookup: the record found, or the response to send.
pub enum Lookup<'a> {
    Found(&'a Record),
    Reply(Response),
}

/// Where the router sends a request.
pub enum Routed {
    /// To the handler at this position.
    Handler(usize),
    /// Nowhere: the response to send.
    NotFound(Response),
}

/// The endpoint a request is routed by: its path, or `/`.
pub open spec fn route_path(st: StartView) -> Seq<char> {
    match target_of(st) {
        Some(t) => path_of(t),
        None => seq!['/'],
    }
}

/// The method a request is routed by: its own, or GET.
pub open spec fn route_method(st: StartView) -> Method {
    match st {
        StartView::Request { method, .. } => method,
        StartView::Response { .. } => Method::Get,
    }
}

/// The entry is for `(e, m)`.
pub open spec fn entry_for(e: Seq<char>, m: Method) -> spec_fn((String, Method, usize)) -> bool {
    |x: (String, Method, usize)| x.0@ == e && x.1 == m
}

/// Position of the entry for `(e, m)`, or -1.
pub open spec fn entry_index(es: Seq<(String, Method, usize)>, e: Seq<char>, m: Method) -> int {
    first_index(es, entry_for(e, m))
}

/// The handler position registered for `(e, m)`.
pub open spec fn route_of(es: Seq<(String, Method, usize)>, e: Seq<char>, m: Method) -> Option<usize> {
    let i = entry_index(es, e, m);
    if 0 <= i < es.len() {
        Some(es[i].2)
    } else {
        None
    }
}

/// What a GET answers: 400 without the identifier parameter or without its
/// value, else the record whose identifier renders as the value, or 404.
pub open spec fn lookup_status(items: Seq<Record>, ident: Seq<char>, st: StartView) -> u16 {
    let ps = request_params(st);
    let i = param_index(ps, ident);
    if i < 0 || ps[i].1 is None {
        400
    } else if crate::store::find_text_index(items, ident, ps[i].1->0) < 0 {
        404
    } else {
        200
    }
}

/// Position of the last route that serves `m` at `e`, or -1.
pub open spec fn last_route(routes: Seq<Route>, e: Seq<char>, m: Method) -> int
    decreases routes.len(),
{
    if routes.len() == 0 {
        -1
    } else if routes.last().spec_endpoint() == e && routes.last().spec_methods().contains(m) {
        routes.len() - 1
    } else {
        last_route(routes.drop_last(), e, m)
    }
}

/// The route at `i` serves `m` at `e`.
pub open spec fn registers(routes: Seq<Route>, i: int, e: Seq<char>, m: Method) -> bool {
    routes[i].spec_endpoint() == e && routes[i].spec_methods().contains(m)
}

/// `last_route` is the largest position whose route serves `m` at `e`, and
/// -1 when no route does.
pub proof fn lemma_last_route(routes: Seq<Route>, e: Seq<char>, m: Method)
    ensures
        -1 <= last_route(routes, e, m) < routes.len(),
        last_route(routes, e, m) >= 0 ==> registers(routes, last_route(routes, e, m), e, m),
        forall|i: int|
            last_route(routes, e, m) < i < routes.len() ==> !#[trigger] registers(routes, i, e, m),
    decreases routes.len(),
{
    if routes.len() > 0 {
        let n = routes.len() - 1;
        if !registers(routes, n, e, m) {
            let rest = routes.drop_last();
            lemma_last_route(rest, e, m);
            assert forall|i: int| last_route(routes, e, m) < i < routes.len() implies !#[trigger] registers(
                routes,
                i,
                e,
                m,
            ) by {
                if i < n {
                    assert(rest[i] == routes[i]);
                    assert(!registers(rest, i, e, m));
                }
            }
            if last_route(routes, e, m) >= 0 {
                assert(rest[last_route(routes, e, m)] == routes[last_route(routes, e, m)]);
            }
        }
    }
}

/// Routing follows the last registration: when the routes at positions
/// after `j` do not serve the request's path and method and the route at `j`
/// does, a router built from the routes sends the request to the handler of
/// route `j`; when no route serves them, to what it sent them to before.
pub proof fn lemma_last_registration_wins(before: Router, after: Router, routes: Seq<Route>, st: StartView)
    requires
        forall|e: Seq<char>, m: Method|
            #[trigger] after.route(e, m) == if last_route(routes, e, m) >= 0 {
                Some((before.spec_handlers().len() + last_route(routes, e, m)) as usize)
            } else {
                before.route(e, m)
            },
    ensures
        forall|j: int|
            0 <= j < routes.len() && registers(routes, j, route_path(st), route_method(st)) && (forall|i: int|
                j < i < routes.len() ==> !#[trigger] registers(routes, i, route_path(st), route_method(st)))
                ==> after.route(route_path(st), route_method(st)) == Some(
                (before.spec_handlers().len() + j) as usize,
            ),
        (forall|i: int| 0 <= i < routes.len() ==> !#[trigger] registers(routes, i, route_path(st), route_method(st)))
            ==> after.route(route_path(st), route_method(st)) == before.route(route_path(st), route_method(st)),
{
    let e = route_path(st);
    let m = route_method(st);
    lemma_last_route(routes, e, m);
    let k = last_route(routes, e, m);
    assert(after.route(e, m) == if k >= 0 {
        Some((before.spec_handlers().len() + k) as usize)
    } else {
        before.route(e, m)
    });
    if k >= 0 {
        assert(registers(routes, k, e, m));
    }
}

/// The handler serves the route as its kind says.
pub open spec fn serves(h: RouteHandler, route: Route) -> bool {
    match (h, route.spec_kind()) {
        (RouteHandler::Store(s), RouteKind::Store { path, identifier }) => s.spec_path() == path@
            && s.spec_identifier() == identifier@,
        (RouteHandler::Script(s), RouteKind::Script { script, func }) => s.spec_script() == script@
            && s.spec_func() == func@,
        _ => false,
    }
}

/// The body of the 400 answer to a GET without the identifier parameter.
pub open spec fn missing_param_text() -> Seq<char> {
    "identifier not found in query params"@
}

/// The body of the 400 answer to a GET whose identifier parameter has no value.
pub open spec fn empty_param_text() -> Seq<char> {
    "identifier was found in query params but has no value"@
}

/// The body of the 404 answer to a GET that matches no record.
pub open spec fn not_found_text() -> Seq<char> {
    "entity was not found"@
}

/// The two 400 answers of a GET differ.
pub proof fn lemma_bad_request_bodies_differ()
    ensures
        missing_param_text() != empty_param_text(),
{
    reveal_strlit("identifier not found in query params");
    reveal_strlit("identifier was found in query params but has no value");
    assert(missing_param_text().len() != empty_param_text().len());
}

/// Maps each endpoint and method to a handler; a later registration for a
/// pair replaces an earlier one.
pub struct Router {
    entries: Vec<(String, Method, usize)>,
    handlers: Vec<RouteHandler>,
}

impl Router {
    pub closed spec fn spec_entries(&self) -> Seq<(String, Method, usize)> {
        self.entries@
    }

    pub closed spec fn spec_handlers(&self) -> Seq<RouteHandler> {
        self.handlers@
    }

    /// The handler position registered for `(e, m)`.
    pub open spec fn route(&self, e: Seq<char>, m: Method) -> Option<usize> {
        route_of(self.spec_entries(), e, m)
    }

    /// Every registered position names a handler.
    pub open spec fn wf(&self) -> bool {
        forall|e: Seq<char>, m: Method|
            #[trigger] self.route(e, m) matches Some(i) ==> i < self.spec_handlers().len()
    }

    pub fn new() -> (r: Self)
        ensures
            r.wf(),
            r.spec_handlers() == Seq::<RouteHandler>::empty(),
            forall|e: Seq<char>, m: Method| #[trigger] r.route(e, m) is None,
    {
        let r = Router { entries: Vec::new(), handlers: Vec::new() };
        assert forall|e: Seq<char>, m: Method| #[trigger] r.route(e, m) is None by {
            lemma_first_index(r.entries@, entry_for(e, m));
        }
        r
    }

    fn set_entry(&mut self, e: &String, m: Method, h: usize)
        ensures
            final(self).spec_handlers() == old(self).spec_handlers(),
            forall|e2: Seq<char>, m2: Method|
                #[trigger] final(self).route(e2, m2) == if e2 == e@ && m2 == m {
                    Some(h)
                } else {
                    old(self).route(e2, m2)
                },
    {
        let ghost es = self.entries@;
        let ghost p = entry_for(e@, m);
        let mut i: usize = 0;
        while i < self.entries.len()
            invariant
                i <= self.entries@.len(),
                self.entries == old(self).entries,
                self.handlers == old(self).handlers,
                es == self.entries@,
                p == entry_for(e@, m),
                forall|j: int| 0 <= j < i ==> !p(#[trigger] es[j]),
            decreases self.entries@.len() - i,
        {
            if self.entries[i].0 == *e && self.entries[i].1 == m {
                let name = self.entries[i].0.clone();
                self.entries[i] = (name, m, h);
                proof {
                    let ns = self.entries@;
                    assert(ns == es.update(i as int, (es[i as int].0, m, h)));
                    lemma_first_index_at(es, p, i as int);
                    assert forall|e2: Seq<char>, m2: Method|
                        #[trigger] route_of(ns, e2, m2) == if e2 == e@ && m2 == m {
                            Some(h)
                        } else {
                            route_of(es, e2, m2)
                        } by {
                        let q = entry_for(e2, m2);
                        lemma_first_index(es, q);
                        let k = first_index(es, q);
                        assert forall|j: int| 0 <= j < es.len() implies q(#[trigger] ns[j]) == q(es[j]) by {
                            if j == i {
                                assert(ns[j].0@ == es[j].0@);
                            }
                        }
                        if k >= 0 {
                            assert forall|j: int| 0 <= j < k implies !q(#[trigger] ns[j]) by {
                                assert(!q(es[j]));
                            }
                            lemma_first_index_at(ns, q, k);
                        } else {
                            assert forall|j: int| 0 <= j < ns.len() implies !q(#[trigger] ns[j]) by {
                                assert(!q(es[j]));
                            }
                            lemma_first_index_none(ns, q);
                        }
                    }
                }
                return;
            }
            i += 1;
        }
        self.entries.push((e.clone(), m, h));
        proof {
            let ns = self.entries@;
            assert(ns == es.push((*e, m, h)));
            lemma_first_index_none(es, p);
            assert forall|e2: Seq<char>, m2: Method|
                #[trigger] route_of(ns, e2, m2) == if e2 == e@ && m2 == m {
                    Some(h)
                } else {
                    route_of(es, e2, m2)
                } by {
                let q = entry_for(e2, m2);
                lemma_first_index(es, q);
                let k = first_index(es, q);
                if e2 == e@ && m2 == m {
                    assert forall|j: int| 0 <= j < es.len() implies !q(#[trigger] ns[j]) by {
                        assert(ns[j] == es[j]);
                        assert(!p(es[j]));
                    }
                    lemma_first_index_at(ns, q, es.len() as int);
                } else if k >= 0 {
                    assert forall|j: int| 0 <= j < k implies !q(#[trigger] ns[j]) by {
                        assert(ns[j] == es[j]);
                    }
                    lemma_first_index_at(ns, q, k);
                } else {
                    assert forall|j: int| 0 <= j < ns.len() implies !q(#[trigger] ns[j]) by {
                        if j < es.len() {
                            assert(ns[j] == es[j]);
                        }
                    }
                    lemma_first_index_none(ns, q);
                }
            }
        }
    }

    /// Registers `handler` for each of `methods` at `endpoint`, replacing what
    /// was registered for those pairs.
    pub fn set(&mut self, methods: &[Method], endpoint: &str, handler: RouteHandler)
        requires
            old(self).wf(),
        ensures
            final(self).wf(),
            final(self).spec_handlers() == old(self).spec_handlers().push(handler),
            forall|e: Seq<char>, m: Method|
                #[trigger] final(self).route(e, m) == if e == endpoint@ && methods@.contains(m) {
                    Some(old(self).spec_handlers().len() as usize)
                } else {
                    old(self).route(e, m)
                },
            forall|k: int|
                0 <= k < methods@.len() ==> final(self).route(endpoint@, #[trigger] methods@[k]) == Some(
                    old(self).spec_handlers().len() as usize,
                ),
    {
        let h = self.handlers.len();
        self.handlers.push(handler);
        let ep = String::from_str(endpoint);
        let mut i: usize = 0;
        while i < methods.len()
            invariant
                i <= methods@.len(),
                h == old(self).spec_handlers().len(),
                self.spec_handlers() == old(self).spec_handlers().push(handler),
                ep@ == endpoint@,
                forall|e: Seq<char>, m: Method|
                    #[trigger] self.route(e, m) == if e == endpoint@ && methods@.take(i as int).contains(m) {
                        Some(h)
                    } else {
                        old(self).route(e, m)
                    },
            decreases methods@.len() - i,
        {
            let m = methods[i];
            self.set_entry(&ep, m, h);
            proof {
                assert forall|x: Method| methods@.take(i + 1).contains(x) <==> (methods@.take(i as int).contains(x) || x == m) by {
                    if methods@.take(i + 1).contains(x) {
                        let j = choose|j: int| 0 <= j < i + 1 && #[trigger] methods@.take(i + 1)[j] == x;
                        if j < i {
                            assert(methods@.take(i as int)[j] == x);
                        }
                    }
                    if methods@.take(i as int).contains(x) {
                        let j = choose|j: int| 0 <= j < i && #[trigger] methods@.take(i as int)[j] == x;
                        assert(methods@.take(i + 1)[j] == x);
                    }
                    if x == m {
                        assert(methods@.take(i + 1)[i as int] == x);
                    }
                }
            }
            i += 1;
        }
        assert(methods@.take(i as int) =~= methods@);
        assert forall|k: int| 0 <= k < methods@.len() implies self.route(endpoint@, #[trigger] methods@[k]) == Some(h) by {
            assert(methods@.contains(methods@[k]));
        }
    }

    /// The handler registered for `method` at `endpoint`.
    pub fn handler(&self, method: Method, endpoint: &str) -> (r: Option<&RouteHandler>)
        requires
            self.wf(),
        ensures
            match r {
                Some(h) => self.route(endpoint@, method) matches Some(i) && *h == self.spec_handlers()[i as int],
                None => self.route(endpoint@, method) is None,
            },
    {
        match self.position(method, endpoint) {
            Some(i) => Some(&self.handlers[i]),
            None => None,
        }
    }

    fn position(&self, method: Method, endpoint: &str) -> (r: Option<usize>)
        requires
            self.wf(),
        ensures
            r == self.route(endpoint@, method),
            r matches Some(i) ==> i < self.spec_handlers().len(),
    {
        let ep = String::from_str(endpoint);
        let ghost p = entry_for(endpoint@, method);
        let mut i: usize = 0;
        while i < self.entries.len()
            invariant
                i <= self.entries@.len(),
                self.wf(),
                ep@ == endpoint@,
                self.spec_entries() == self.entries@,
                p == entry_for(endpoint@, method),
                forall|j: int| 0 <= j < i ==> !p(#[trigger] self.entries@[j]),
            decreases self.entries@.len() - i,
        {
            if self.entries[i].0 == ep && self.entries[i].1 == method {
                proof {
                    let es = self.entries@;
                    let q = entry_for(endpoint@, method);
                    assert forall|j: int| 0 <= j < i implies !q(#[trigger] es[j]) by {
                        assert(!p(es[j]));
                    }
                    assert(q(es[i as int]));
                    lemma_first_index_at(es, q, i as int);
                    assert(entry_index(es, endpoint@, method) == i);
                }
                return Some(self.entries[i].2);
            }
            i += 1;
        }
        proof {
            let es = self.entries@;
            let q = entry_for(endpoint@, method);
            assert forall|j: int| 0 <= j < es.len() implies !q(#[trigger] es[j]) by {
                assert(!p(es[j]));
            }
            lemma_first_index_none(es, q);
        }
        None
    }

    /// The handler at a position.
    pub fn handler_at(&self, i: usize) -> (r: &RouteHandler)
        requires
            i < self.spec_handlers().len(),
        ensures
            *r == self.spec_handlers()[i as int],
    {
        &self.handlers[i]
    }

    /// Routes a request by its path (query left out; `/` if it has none) and
    /// its method (GET if it has none): to the handler registered for the
    /// pair, or to a 404 response without a body.
    pub fn dispatch(&self, req: &Request) -> (r: Routed)
        requires
            self.wf(),
        ensures
            match r {
                Routed::Handler(i) => self.route(route_path(req@.start), route_method(req@.start)) == Some(i)
                    && i < self.spec_handlers().len(),
                Routed::NotFound(res) => self.route(route_path(req@.start), route_method(req@.start)) is None
                    && res@ == status_view(404),
            },
    {
        proof {
            reveal_strlit("/");
        }
        let endpoint = match req.path() {
            Some(p) => p,
            None => "/",
        };
        let method = match req.method() {
            Some(m) => m,
            None => Method::Get,
        };
        assert(endpoint@ == route_path(req@.start));
        match self.position(method, endpoint) {
            Some(i) => Routed::Handler(i),
            None => Routed::NotFound(Response::default().with_status_code(404)),
        }
    }

    /// The router with one handler per route, registered in order: each pair
    /// of endpoint and method goes to the handler of the last route serving it.
    pub fn with_routes(self, routes: Vec<Route>) -> (r: Self)
        requires
            self.wf(),
        ensures
            r.wf(),
            r.spec_handlers().len() == self.spec_handlers().len() + routes@.len(),
            forall|j: int|
                0 <= j < routes@.len() ==> serves(
                    #[trigger] r.spec_handlers()[self.spec_handlers().len() + j],
                    routes@[j],
                ),
            forall|e: Seq<char>, m: Method|
                #[trigger] r.route(e, m) == if last_route(routes@, e, m) >= 0 {
                    Some((self.spec_handlers().len() + last_route(routes@, e, m)) as usize)
                } else {
                    self.route(e, m)
                },
    {
        let ghost base = self.spec_handlers().len();
        let mut r = self;
        let mut i: usize = 0;
        while i < routes.len()
            invariant
                i <= routes@.len(),
                r.wf(),
                r.spec_handlers().len() == base + i,
                base == self.spec_handlers().len(),
                forall|j: int| 0 <= j < i ==> serves(#[trigger] r.spec_handlers()[base + j], routes@[j]),
                forall|e: Seq<char>, m: Method|
                    #[trigger] r.route(e, m) == if last_route(routes@.take(i as int), e, m) >= 0 {
                        Some((base + last_route(routes@.take(i as int), e, m)) as usize)
                    } else {
                        self.route(e, m)
                    },
            decreases routes@.len() - i,
        {
            let route = &routes[i];
            let handler = match route.kind() {
                RouteKind::Store { path, identifier } => RouteHandler::Store(
                    StoreRouteHandler::new(route.clone(), path.as_str(), identifier.as_str()),
                ),
                RouteKind::Script { script, func } => RouteHandler::Script(
                    ScriptRouteHandler::new(route.clone(), script.as_str(), func.as_str()),
                ),
            };
            assert(serves(handler, routes@[i as int]));
            let ghost prev = r;
            r.set(route.methods().as_slice(), route.endpoint().as_str(), handler);
            proof {
                let t = routes@.take(i + 1);
                assert(t.drop_last() =~= routes@.take(i as int));
                assert(t.last() == routes@[i as int]);
                assert forall|j: int| 0 <= j < i + 1 implies serves(#[trigger] r.spec_handlers()[base + j], routes@[j]) by {
                    if j < i {
                        assert(r.spec_handlers()[base + j] == prev.spec_handlers()[base + j]);
                    }
                }
            }
            i += 1;
        }
        assert(routes@.take(i as int) =~= routes@);
        r
    }
}

impl Default for Router {
    fn default() -> (r: Self)
        ensures
            r.wf(),
            r.spec_handlers() == Seq::<RouteHandler>::empty(),
            forall|e: Seq<char>, m: Method| #[trigger] r.route(e, m) is None,
    {
        Router::new()
    }
}

impl ScriptRouteHandler {
    pub fn new(route: Route, script_path: &str, func_name: &str) -> (r: Self)
        ensures
            r.spec_script() == script_path@,
            r.spec_func() == func_name@,
    {
        ScriptRouteHandler {
            route,
            script_path: String::from_str(script_path),
            func_name: String::from_str(func_name),
        }
    }

    pub closed spec fn spec_script(&self) -> Seq<char> {
        self.script_path@
    }

    pub closed spec fn spec_func(&self) -> Seq<char> {
        self.func_name@
    }

    /// Scripts are not run: every request is answered 501.
    pub fn handle(&self, req: &Request) -> (r: Result<Response, Error>)
        ensures
            r matches Err(e) && e.spec_kind() == ErrorKind::Api(Status::NotImplemented),
    {
        Err(Error::with_message(ErrorKind::Api(Status::NotImplemented), "script routes are not supported"))
    }
}

impl StoreRouteHandler {
    pub fn new(route: Route, path: &str, identifier: &str) -> (r: Self)
        ensures
            r.spec_path() == path@,
            r.spec_identifier() == identifier@,
    {
        StoreRouteHandler {
            route,
            path: String::from_str(path),
            identifier: String::from_str(identifier),
        }
    }

    pub closed spec fn spec_path(&self) -> Seq<char> {
        self.path@
    }

    pub closed spec fn spec_identifier(&self) -> Seq<char> {
        self.identifier@
    }

    /// An empty store for this handler's collection, kept as JSON.
    pub fn store(&self) -> (r: Store)
        ensures
            r.spec_path() == self.spec_path(),
            r.spec_identifier() == self.spec_identifier(),
            r.spec_format() == crate::store::PayloadFormat::Json,
            r.spec_items() == Seq::<Record>::empty(),
            r.wf(),
    {
        Store::json(self.path.as_str(), self.identifier.as_str())
    }

    /// What to do with a request: GET looks up, POST creates; PUT, PATCH and
    /// DELETE are answered 501, any other method 500.
    pub fn plan(&self, req: &Request) -> (r: Result<StoreOp, Error>)
        ensures
            match route_method_opt(req@.start) {
                Some(Method::Get) => r == Ok::<StoreOp, Error>(StoreOp::Load),
                Some(Method::Post) => r == Ok::<StoreOp, Error>(StoreOp::Create),
                Some(Method::Put) | Some(Method::Patch) | Some(Method::Delete) => r matches Err(e)
                    && e.spec_kind() == ErrorKind::Api(Status::NotImplemented),
                _ => r matches Err(e) && e.spec_kind() == ErrorKind::Unknown,
            },
    {
        match req.method() {
            Some(Method::Get) => Ok(StoreOp::Load),
            Some(Method::Post) => Ok(StoreOp::Create),
            Some(Method::Put) | Some(Method::Patch) | Some(Method::Delete) => Err(
                Error::with_message(ErrorKind::Api(Status::NotImplemented), "method not implemented for store routes"),
            ),
            _ => Err(Error::with_message(ErrorKind::Unknown, "unsupported method")),
        }
    }

    /// GET: the record whose identifier renders as the value of the query
    /// parameter named like the store's identifier field (letter case aside);
    /// 400 when the parameter is absent or has no value, 404 when no record
    /// matches.
    pub fn load_entity<'a>(&self, store: &'a Store, req: &Request) -> (r: Lookup<'a>)
        ensures
            ({
                let items = store.spec_items();
                let ident = store.spec_identifier();
                let ps = request_params(req@.start);
                let i = param_index(ps, ident);
                let code = lookup_status(items, ident, req@.start);
                match r {
                    Lookup::Found(rec) => code == 200 && *rec == items[crate::store::find_text_index(items, ident, ps[i].1->0)],
                    Lookup::Reply(res) => code != 200 && res@ == status_view(code).with_body_text(
                        if i < 0 {
                            missing_param_text()
                        } else if ps[i].1 is None {
                            empty_param_text()
                        } else {
                            not_found_text()
                        },
                    ),
                }
            }),
    {
        let ghost ps = request_params(req@.start);
        let ghost ident = store.spec_identifier();
        proof {
            lemma_first_index(ps, |p: crate::request::ParamView| crate::text::eq_ignore_case(p.0, ident));
        }
        let value = match req.query_param(store.identifier().as_str()) {
            Some((_key, Some(v))) => v,
            Some((_key, None)) => {
                let res = Response::default().with_status_code(400).with_body(
                    "identifier was found in query params but has no value",
                );
                proof {
                    reveal_strlit("identifier was found in query params but has no value");
                }
                return Lookup::Reply(res);
            },
            None => {
                let res = Response::default().with_status_code(400).with_body(
                    "identifier not found in query params",
                );
                proof {
                    reveal_strlit("identifier not found in query params");
                }
                return Lookup::Reply(res);
            },
        };
        let id = Value::String(value);
        proof {
            lemma_first_index(store.spec_items(), |r: Record| crate::store::has_id(r, ident, loose_text(id)));
        }
        match store.find(&id) {
            Some(rec) => Lookup::Found(rec),
            None => {
                proof {
                    reveal_strlit("entity was not found");
                }
                Lookup::Reply(Response::default().with_status_code(404).with_body("entity was not found"))
            },
        }
    }

    /// POST: appends `record`, unless it has an identifier and a record with a
    /// loosely equal identifier exists (409). A record without the identifier
    /// field has the identifier null, and no uniqueness is enforced for it.
    /// The response is 201, with the identifier's JSON text as body (a string
    /// identifier quoted and escaped); the store must then be saved.
    pub fn create_entity(&self, store: &mut Store, record: Record) -> (r: Result<Response, Error>)
        requires
            old(store).wf(),
            crate::store::keys_unique(record@),
        ensures
            final(store).wf(),
            ({
                let items = old(store).spec_items();
                let ident = old(store).spec_identifier();
                match id_value(record@, ident) {
                    None => r matches Ok(res) && res@ == payload_view(
                        201,
                        "application/json"@,
                        json_text(Value::Null),
                    ) && final(store).spec_items() == items.push(record),
                    Some(id) => if find_index(items, ident, id) >= 0 {
                        r matches Err(e) && e.spec_kind() == ErrorKind::Api(Status::Conflict)
                            && final(store).spec_items() == items
                    } else {
                        r matches Ok(res) && res@ == payload_view(201, "application/json"@, json_text(id))
                            && final(store).spec_items() == items.push(record)
                    },
                }
            }),
            final(store).spec_path() == old(store).spec_path(),
            final(store).spec_identifier() == old(store).spec_identifier(),
            final(store).spec_format() == old(store).spec_format(),
    {
        let (id, checked) = match store.id_field(&record) {
            Some((_k, v)) => (v.duplicate(), true),
            None => (Value::Null, false),
        };
        if checked && store.contains(&id) {
            return Err(Error::with_message(ErrorKind::Api(Status::Conflict), "an entity with this identifier already exists"));
        }
        let body = id.json_text();
        store.push(record);
        Ok(Response::json(Status::Created, body.as_str()))
    }
}

/// The method of a request start line.
pub open spec fn route_method_opt(st: StartView) -> Option<Method> {
    match st {
        StartView::Request { method, .. } => Some(method),
        StartView::Response { .. } => None,
    }
}

} // verus!
