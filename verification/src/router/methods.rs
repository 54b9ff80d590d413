//! Shorthand registration methods, one per HTTP method.

use vstd::prelude::*;

use crate::http_method::HttpMethod;
use crate::router::endpoint::Endpoint;
use crate::router::{insert_error, inserted, router_wf, spec_path_types, RouteError, Router};
use crate::strutil::spec_trim;

verus! {

/// What the per-method shorthands do: an endpoint with the given method,
/// controller and no middleware is registered under the path, with the same
/// outcomes as `use_endpoint`.
pub open spec fn registered<C>(
    r1: Router<C>,
    r2: Router<C>,
    path: Seq<char>,
    method: HttpMethod,
    controller: C,
    r: Result<(), RouteError>,
) -> bool {
    &&& r2.middlewares == r1.middlewares
    &&& match spec_path_types(spec_trim(path)) {
        None => (r matches Err(e) && e matches RouteError::InvalidPath(_)) && r2.root == r1.root,
        Some(pts) => match insert_error(r1.root, pts, method) {
            Some(e2) => r == Err::<(), RouteError>(e2) && r2.root == r1.root,
            None => r is Ok && (exists|ep: Endpoint<C>|
                #[trigger] inserted(r1.root, pts, ep, r2.root) && ep.method == method
                    && ep.controller == controller && ep.middlewares@.len() == 0),
        },
    }
}

impl<C> Router<C> {
    /// Adds a GET endpoint to the router.
    pub fn get(&mut self, path: &str, controller: C) -> (r: Result<(), RouteError>)
        requires
            router_wf(*old(self)),
        ensures
            router_wf(*final(self)),
            registered(*old(self), *final(self), path@, HttpMethod::GET, controller, r),
    {
        let endpoint = Endpoint::new(HttpMethod::GET, controller);
        self.use_endpoint(path, endpoint)
    }

    /// Adds a POST endpoint to the router.
    pub fn post(&mut self, path: &str, controller: C) -> (r: Result<(), RouteError>)
        requires
            router_wf(*old(self)),
        ensures
            router_wf(*final(self)),
            registered(*old(self), *final(self), path@, HttpMethod::POST, controller, r),
    {
        let endpoint = Endpoint::new(HttpMethod::POST, controller);
        self.use_endpoint(path, endpoint)
    }

    /// Adds a PUT endpoint to the router.
    pub fn put(&mut self, path: &str, controller: C) -> (r: Result<(), RouteError>)
        requires
            router_wf(*old(self)),
        ensures
            router_wf(*final(self)),
            registered(*old(self), *final(self), path@, HttpMethod::PUT, controller, r),
    {
        let endpoint = Endpoint::new(HttpMethod::PUT, controller);
        self.use_endpoint(path, endpoint)
    }

    /// Adds a DELETE endpoint to the router.
    pub fn delete(&mut self, path: &str, controller: C) -> (r: Result<(), RouteError>)
        requires
            router_wf(*old(self)),
        ensures
            router_wf(*final(self)),
            registered(*old(self), *final(self), path@, HttpMethod::DELETE, controller, r),
    {
        let endpoint = Endpoint::new(HttpMethod::DELETE, controller);
        self.use_endpoint(path, endpoint)
    }

    /// Adds a PATCH endpoint to the router.
    pub fn patch(&mut self, path: &str, controller: C) -> (r: Result<(), RouteError>)
        requires
            router_wf(*old(self)),
        ensures
            router_wf(*final(self)),
            registered(*old(self), *final(self), path@, HttpMethod::PATCH, controller, r),
    {
        let endpoint = Endpoint::new(HttpMethod::PATCH, controller);
        self.use_endpoint(path, endpoint)
    }
}

} // verus!
