//! An endpoint: an HTTP method, its controller, and its own middleware list,
//! stored at a specific trie depth.

use vstd::prelude::*;

use crate::http_method::HttpMethod;
use crate::middleware::{mws_wf, Middleware};
use crate::request::{Request, RequestView};
use crate::response::{Response, ResponseView};

verus! {

/// The terminal handler that produces the business response for a matched
/// route. Applications implement it; the router only calls it, and its
/// dispatch contract passes each controller's own guarantee through: what the
/// router promises about the response after a match is exactly `spec_call` of
/// the bound request.
pub trait Controller {
    /// What one run of this controller guarantees: how the response after the
    /// call relates to the bound request (the request with the route
    /// parameter bindings merged in) and the response before the call. The
    /// default promises nothing; a verified implementation overrides it with
    /// its own guarantee, which the router's dispatch contract then carries
    /// to the final response.
    open spec fn spec_call(
        &self,
        request: RequestView,
        before: ResponseView,
        after: ResponseView,
    ) -> bool {
        true
    }

    /// Produces the response for a matched request; the request carries the
    /// route parameter bindings of the dispatch. An implementation may change
    /// the response freely, but must leave it well-formed (which every
    /// `Response` method does) and meet its own `spec_call`.
    fn call(&self, request: &Request, response: &mut Response)
        requires
            request.wf(),
            old(response).wf(),
        ensures
            final(response).wf(),
            self.spec_call(request@, old(response)@, final(response)@),
    ;
}

/// An endpoint of the route tree. The fields are public so that the router's
/// contracts can speak of them directly.
#[derive(Clone)]
pub struct Endpoint<C> {
    /// The HTTP method this endpoint answers.
    pub method: HttpMethod,
    /// The controller run for a matched request.
    pub controller: C,
    /// The endpoint-scoped middleware, run after the router-scoped tier.
    pub middlewares: Vec<Middleware>,
}

impl<C> Endpoint<C> {
    /// Creates a new Endpoint instance without middleware.
    pub fn new(method: HttpMethod, controller: C) -> (r: Self)
        ensures
            r.method == method,
            r.controller == controller,
            r.middlewares@ == Seq::<Middleware>::empty(),
            mws_wf(r.middlewares@),
    {
        Endpoint { method, controller, middlewares: Vec::new() }
    }

    /// Creates a new Endpoint instance with middleware.
    pub fn new_with_middleware(method: HttpMethod, controller: C, middlewares: Vec<Middleware>) -> (
        r: Self)
        ensures
            r.method == method,
            r.controller == controller,
            r.middlewares == middlewares,
    {
        Endpoint { method, controller, middlewares }
    }

    /// Whether this endpoint answers the given method.
    pub fn is_method(&self, method: &HttpMethod) -> (r: bool)
        ensures
            r == (self.method == *method),
    {
        self.method == *method
    }

    /// The endpoint's controller.
    pub fn get_controller(&self) -> (r: &C)
        ensures
            r == &self.controller,
    {
        &self.controller
    }

    /// The endpoint's middleware, for running the endpoint tier.
    pub fn get_middlewares(&mut self) -> (r: &mut Vec<Middleware>)
        ensures
            *r == old(self).middlewares,
            final(self).method == old(self).method,
            final(self).controller == old(self).controller,
            final(self).middlewares == *final(r),
    {
        &mut self.middlewares
    }
}

} // verus!
