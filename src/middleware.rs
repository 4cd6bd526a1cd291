//! Middlewares: interceptors run on every request before routing, and the
//! registry that makes them by name.

use vstd::prelude::*;

use crate::buffer::{set_header_spec, BufferView};
use crate::error::{Error, ErrorKind};
use crate::http::Method;
use crate::request::Request;
use crate::response::Response;
use crate::text::{
    eq_ignore_ascii_case, eq_ignore_case, first_index, lemma_eq_ignore_case_shared, lemma_first_index,
    lemma_first_index_at, lemma_first_index_none,
};

verus! {

/// An interceptor that may rewrite the response before routing.
pub trait Middleware {
    fn name(&self) -> &String;

    fn supported_methods(&self) -> Vec<Method>;

    fn execute(&mut self, request: &Request, response: Response) -> Result<Response, Error>;
}

/// The middlewares this library provides.
#[derive(Clone, Copy, PartialEq, Eq, Debug, Structural)]
pub enum MiddlewareKind {
    Cors,
}

pub open spec fn cors_name() -> Seq<char> {
    seq!['C', 'o', 'r', 's']
}

pub open spec fn allow_origin() -> Seq<char> {
    seq![
        'A', 'c', 'c', 'e', 's', 's', '-', 'C', 'o', 'n', 't', 'r', 'o', 'l', '-', 'A', 'l', 'l',
        'o', 'w', '-', 'O', 'r', 'i', 'g', 'i', 'n',
    ]
}

/// Allows every origin: sets `Access-Control-Allow-Origin: *`.
#[derive(Clone, Debug)]
pub struct CorsMiddleware {
    name: String,
}

impl CorsMiddleware {
    pub closed spec fn spec_name(&self) -> Seq<char> {
        self.name@
    }

    pub fn new() -> (r: Self)
        ensures
            r.spec_name() == cors_name(),
    {
        proof {
            reveal_strlit("Cors");
            assert("Cors"@ =~= cors_name());
        }
        CorsMiddleware { name: String::from_str("Cors") }
    }

    /// The response with the header allowing every origin.
    pub fn apply(&self, response: Response) -> (r: Response)
        ensures
            r@ == (BufferView {
                headers: set_header_spec(response@.headers, allow_origin(), seq!['*']),
                ..response@
            }),
    {
        proof {
            reveal_strlit("Access-Control-Allow-Origin");
            reveal_strlit("*");
            assert("Access-Control-Allow-Origin"@ =~= allow_origin());
            assert("*"@ =~= seq!['*']);
        }
        let mut res = response;
        res.set_header("Access-Control-Allow-Origin", "*");
        res
    }
}

impl Middleware for CorsMiddleware {
    fn name(&self) -> &String {
        &self.name
    }

    fn supported_methods(&self) -> Vec<Method> {
        vec![Method::Options]
    }

    fn execute(&mut self, request: &Request, response: Response) -> Result<Response, Error> {
        Ok(self.apply(response))
    }
}

/// A middleware made by the registry.
#[derive(Clone, Debug)]
pub enum AnyMiddleware {
    Cors(CorsMiddleware),
}

impl Middleware for AnyMiddleware {
    fn name(&self) -> &String {
        match self {
            AnyMiddleware::Cors(m) => &m.name,
        }
    }

    fn supported_methods(&self) -> Vec<Method> {
        match self {
            AnyMiddleware::Cors(m) => m.supported_methods(),
        }
    }

    fn execute(&mut self, request: &Request, response: Response) -> Result<Response, Error> {
        match self {
            AnyMiddleware::Cors(m) => m.execute(request, response),
        }
    }
}

/// The entry registered under `name`, letter case aside.
pub open spec fn named(name: Seq<char>) -> spec_fn((String, MiddlewareKind)) -> bool {
    |x: (String, MiddlewareKind)| eq_ignore_case(x.0@, name)
}

/// Names middlewares; the first name that matches (letter case aside) wins.
pub struct Middlewares(Vec<(String, MiddlewareKind)>);

impl Middlewares {
    pub closed spec fn spec_entries(&self) -> Seq<(String, MiddlewareKind)> {
        self.0@
    }

    /// The kind registered under `name`, letter case aside.
    pub open spec fn lookup(&self, name: Seq<char>) -> Option<MiddlewareKind> {
        let i = first_index(self.spec_entries(), named(name));
        if 0 <= i < self.spec_entries().len() {
            Some(self.spec_entries()[i].1)
        } else {
            None
        }
    }

    /// A registry that knows the library's middlewares.
    pub fn new() -> (r: Self)
        ensures
            r.spec_entries().len() == 1,
            r.spec_entries()[0].0@ == cors_name(),
            r.spec_entries()[0].1 == MiddlewareKind::Cors,
    {
        proof {
            reveal_strlit("Cors");
            assert("Cors"@ =~= cors_name());
        }
        Middlewares(vec![(String::from_str("Cors"), MiddlewareKind::Cors)])
    }

    /// Registers `kind` under `name`: the entry found under that name
    /// (letter case aside) now makes `kind`; without one, an entry is added.
    pub fn register(&mut self, name: &str, kind: MiddlewareKind)
        ensures
            final(self).lookup(name@) == Some(kind),
            forall|n: Seq<char>|
                !eq_ignore_case(n, name@) ==> #[trigger] final(self).lookup(n) == old(self).lookup(n),
            final(self).spec_entries().len() >= old(self).spec_entries().len(),
    {
        let ghost p = named(name@);
        let mut i: usize = 0;
        while i < self.0.len()
            invariant
                i <= self.0@.len(),
                self.0 == old(self).0,
                p == named(name@),
                forall|j: int| 0 <= j < i ==> !p(#[trigger] self.0@[j]),
            decreases self.0@.len() - i,
        {
            if eq_ignore_ascii_case(self.0[i].0.as_str(), name) {
                let key = self.0[i].0.clone();
                let ghost old_entries = self.0@;
                self.0[i] = (key, kind);
                proof {
                    assert(self.0@ == old_entries.update(i as int, (old_entries[i as int].0, kind)));
                    assert forall|j: int| 0 <= j < i implies !p(#[trigger] self.0@[j]) by {
                        assert(self.0@[j] == old_entries[j]);
                    }
                    lemma_first_index_at(self.0@, p, i as int);
                    let ns = self.0@;
                    assert forall|n: Seq<char>| !eq_ignore_case(n, name@) implies #[trigger] self.lookup(n)
                        == old(self).lookup(n) by {
                        let q = named(n);
                        lemma_first_index(old_entries, q);
                        let k = first_index(old_entries, q);
                        assert forall|j: int| 0 <= j < ns.len() implies q(#[trigger] ns[j]) == q(old_entries[j]) by {
                            assert(ns[j].0 == old_entries[j].0);
                        }
                        if k >= 0 {
                            if k == i {
                                assert(eq_ignore_case(old_entries[k].0@, name@));
                                lemma_eq_ignore_case_shared(old_entries[k].0@, n, name@);
                            }
                            assert forall|j: int| 0 <= j < k implies !q(#[trigger] ns[j]) by {
                                assert(!q(old_entries[j]));
                            }
                            lemma_first_index_at(ns, q, k);
                        } else {
                            assert forall|j: int| 0 <= j < ns.len() implies !q(#[trigger] ns[j]) by {
                                assert(!q(old_entries[j]));
                            }
                            lemma_first_index_none(ns, q);
                        }
                    }
                }
                return;
            }
            i += 1;
        }
        let ghost old_entries = self.0@;
        self.0.push((String::from_str(name), kind));
        proof {
            assert forall|j: int| 0 <= j < old_entries.len() implies !p(#[trigger] self.0@[j]) by {
                assert(self.0@[j] == old_entries[j]);
            }
            assert(eq_ignore_case(name@, name@));
            lemma_first_index_at(self.0@, p, old_entries.len() as int);
            let ns = self.0@;
            assert forall|n: Seq<char>| !eq_ignore_case(n, name@) implies #[trigger] self.lookup(n)
                == old(self).lookup(n) by {
                let q = named(n);
                lemma_first_index(old_entries, q);
                let k = first_index(old_entries, q);
                if eq_ignore_case(name@, n) {
                    lemma_eq_ignore_case_shared(name@, n, name@);
                }
                assert(!q(ns[old_entries.len() as int]));
                if k >= 0 {
                    assert forall|j: int| 0 <= j < k implies !q(#[trigger] ns[j]) by {
                        assert(ns[j] == old_entries[j]);
                    }
                    assert(ns[k] == old_entries[k]);
                    lemma_first_index_at(ns, q, k);
                } else {
                    assert forall|j: int| 0 <= j < ns.len() implies !q(#[trigger] ns[j]) by {
                        if j < old_entries.len() {
                            assert(ns[j] == old_entries[j]);
                        }
                    }
                    lemma_first_index_none(ns, q);
                }
            }
        }
    }

    /// The kind registered under `name`, letter case aside.
    pub fn constructor(&self, name: &str) -> (r: Option<MiddlewareKind>)
        ensures
            r == self.lookup(name@),
    {
        let ghost p = named(name@);
        let mut i: usize = 0;
        while i < self.0.len()
            invariant
                i <= self.0@.len(),
                p == named(name@),
                forall|j: int| 0 <= j < i ==> !p(#[trigger] self.0@[j]),
            decreases self.0@.len() - i,
        {
            if eq_ignore_ascii_case(self.0[i].0.as_str(), name) {
                proof {
                    lemma_first_index_at(self.0@, p, i as int);
                }
                return Some(self.0[i].1);
            }
            i += 1;
        }
        proof {
            lemma_first_index_none(self.0@, p);
        }
        None
    }

    /// Makes the middleware registered under `name`.
    pub fn create(&self, name: &str) -> (r: Result<AnyMiddleware, Error>)
        ensures
            match self.lookup(name@) {
                Some(MiddlewareKind::Cors) => r matches Ok(AnyMiddleware::Cors(m)) && m.spec_name() == cors_name(),
                None => r matches Err(e) && e.spec_kind() == ErrorKind::Unknown,
            },
    {
        match self.constructor(name) {
            Some(MiddlewareKind::Cors) => Ok(AnyMiddleware::Cors(CorsMiddleware::new())),
            None => Err(Error::with_message(ErrorKind::Unknown, "unknown middleware")),
        }
    }
}

} // verus!
