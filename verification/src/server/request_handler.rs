//! A top-level handler of the server: a router or a standalone middleware,
//! both run under the same contract.

use vstd::prelude::*;

use crate::middleware::{mw_step, mw_wf, now_millis, Middleware};
use crate::request::{Request, RequestView};
use crate::response::{Response, ResponseView};
use crate::router::endpoint::Controller;
use crate::router::{handle_rel, router_wf, same_shape, Router};
use crate::server::route_handler::HandlerResult;

verus! {

/// A top-level handler: a whole router, or one standalone middleware.
pub enum RequestHandler<C> {
    /// A router with its own tree and middleware tiers.
    Router(Router<C>),
    /// A standalone middleware, such as the gzip encoder for every response.
    Middleware(Middleware),
}

/// The handler invariant.
pub open spec fn rh_wf<C>(h: &RequestHandler<C>) -> bool {
    match h {
        RequestHandler::Router(r) => router_wf(*r),
        RequestHandler::Middleware(m) => mw_wf(m),
    }
}

/// What one top-level handler does: a router dispatches per its dispatch
/// relation at some instant, without changing its routes; a middleware takes
/// one step at some instant.
pub open spec fn run_rel<C: Controller>(
    h1: RequestHandler<C>,
    h2: RequestHandler<C>,
    req: RequestView,
    res1: ResponseView,
    res2: ResponseView,
    hr: HandlerResult,
) -> bool {
    match h1 {
        RequestHandler::Router(r1) => h2 matches RequestHandler::Router(r2) && same_shape(
            r1.root,
            r2.root,
        ) && exists|now: u64| #[trigger] handle_rel(r1, r2, req, res1, res2, hr, now),
        RequestHandler::Middleware(m1) => h2 matches RequestHandler::Middleware(m2) && exists|
            now: u64,
        | (m2@, res2, hr) == #[trigger] mw_step(m1@, req, res1, now),
    }
}

impl<C: Controller> RequestHandler<C> {
    /// Runs this handler once on the request.
    pub fn run(&mut self, request: &Request, response: &mut Response) -> (r: HandlerResult)
        requires
            rh_wf(old(self)),
            request.wf(),
            old(response).wf(),
        ensures
            rh_wf(final(self)),
            final(response).wf(),
            run_rel(*old(self), *final(self), request@, old(response)@, final(response)@, r),
    {
        match self {
            RequestHandler::Router(router) => {
                let hr = router.handle(request, response);
                hr
            },
            RequestHandler::Middleware(m) => {
                let now = now_millis();
                let hr = m.middleware(request, response, now);
                hr
            },
        }
    }
}

} // verus!
