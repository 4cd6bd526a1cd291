//! Routes as the configuration declares them.

use vstd::prelude::*;

use crate::http::Method;

verus! {

/// How an endpoint is served.
#[derive(Clone, Debug)]
pub enum RouteKind {
    /// A file-backed record store, its records identified by `identifier`.
    Store { path: String, identifier: String },
    /// A handler function of a script.
    Script { script: String, func: String },
}

impl RouteKind {
    pub fn name(&self) -> (r: &'static str)
        ensures
            r == match self {
                RouteKind::Store { .. } => "store",
                RouteKind::Script { .. } => "script",
            },
    {
        match self {
            RouteKind::Store { .. } => "store",
            RouteKind::Script { .. } => "script",
        }
    }
}

/// The methods an endpoint answers, the endpoint, and how it is served.
#[derive(Clone, Debug)]
pub struct Route(Vec<Method>, String, RouteKind);

impl Route {
    pub closed spec fn spec_methods(&self) -> Seq<Method> {
        self.0@
    }

    pub closed spec fn spec_endpoint(&self) -> Seq<char> {
        self.1@
    }

    pub closed spec fn spec_kind(&self) -> RouteKind {
        self.2
    }

    pub fn new(methods: Vec<Method>, endpoint: &str, kind: RouteKind) -> (r: Self)
        ensures
            r.spec_methods() == methods@,
            r.spec_endpoint() == endpoint@,
            r.spec_kind() == kind,
    {
        Route(methods, String::from_str(endpoint), kind)
    }

    pub fn kind(&self) -> (r: &RouteKind)
        ensures
            *r == self.spec_kind(),
    {
        &self.2
    }

    pub fn methods(&self) -> (r: &Vec<Method>)
        ensures
            r@ == self.spec_methods(),
    {
        &self.0
    }

    pub fn endpoint(&self) -> (r: &String)
        ensures
            r@ == self.spec_endpoint(),
    {
        &self.1
    }

    pub fn kind_str(&self) -> (r: &'static str)
        ensures
            r == match self.spec_kind() {
                RouteKind::Store { .. } => "store",
                RouteKind::Script { .. } => "script",
            },
    {
        self.2.name()
    }
}

} // verus!
