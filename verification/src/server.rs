//! The server: an ordered list of top-level handlers (routers and standalone
//! middleware), run in order over each request exactly like a flat middleware
//! chain. A router that found no route returns `Next`, so a later handler may
//! still answer.
//!
//! Listening on a socket and reading the connection are the embedding's work;
//! the server core here works on parsed requests and response values.

use vstd::prelude::*;

use crate::request::Request;
use crate::response::{default_response_view, Response, ResponseView};
use crate::router::endpoint::Controller;
use crate::server::request_handler::{rh_wf, run_rel, RequestHandler};
use crate::server::route_handler::HandlerResult;

pub mod request_handler;
pub mod route_handler;
pub mod testing;

verus! {

/// A server: its ordered top-level handlers.
pub struct Server<C> {
    /// The top-level handlers, in registration order.
    pub route_handlers: Vec<RequestHandler<C>>,
    /// The address the embedding listens on.
    pub address: String,
}

/// The server invariant: every handler is well-formed.
pub open spec fn server_wf<C>(s: Server<C>) -> bool {
    forall|i: int| 0 <= i < s.route_handlers@.len() ==> rh_wf(#[trigger] &s.route_handlers@[i])
}

/// Running the top-level handlers in order: each sees the response the one
/// before left; the first `End` stops the run and leaves the rest untouched.
pub open spec fn handlers_rel<C: Controller>(
    hs1: Seq<RequestHandler<C>>,
    hs2: Seq<RequestHandler<C>>,
    req: crate::request::RequestView,
    res1: ResponseView,
    res2: ResponseView,
) -> bool
    decreases hs1.len(),
{
    if hs1.len() == 0 {
        hs2.len() == 0 && res2 == res1
    } else {
        &&& hs2.len() == hs1.len()
        &&& exists|mid: ResponseView, hr: HandlerResult|
            {
                &&& #[trigger] run_rel(hs1[0], hs2[0], req, res1, mid, hr)
                &&& if hr is End {
                    res2 == mid && (forall|j: int| 1 <= j < hs1.len() ==> hs2[j] == hs1[j])
                } else {
                    handlers_rel(hs1.drop_first(), hs2.drop_first(), req, mid, res2)
                }
            }
    }
}

/// Runs the handlers from position `i` on, stopping at the first `End`.
fn run_handlers<C: Controller>(
    handlers: &mut Vec<RequestHandler<C>>,
    i: usize,
    request: &Request,
    response: &mut Response,
)
    requires
        forall|j: int|
            0 <= j < old(handlers)@.len() ==> rh_wf(#[trigger] &old(handlers)@[j]),
        i <= old(handlers)@.len(),
        request.wf(),
        old(response).wf(),
    ensures
        final(handlers)@.len() == old(handlers)@.len(),
        forall|j: int| 0 <= j < i ==> final(handlers)@[j] == old(handlers)@[j],
        forall|j: int| 0 <= j < final(handlers)@.len() ==> rh_wf(#[trigger] &final(handlers)@[j]),
        final(response).wf(),
        handlers_rel(
            old(handlers)@.skip(i as int),
            final(handlers)@.skip(i as int),
            request@,
            old(response)@,
            final(response)@,
        ),
    decreases old(handlers)@.len() - i,
{
    let ghost pre = handlers@;
    if i == handlers.len() {
        proof {
            assert(pre.skip(i as int) =~= Seq::<RequestHandler<C>>::empty());
        }
        return ;
    }
    let h = &mut handlers[i];
    let hr = h.run(request, response);
    let ghost mid_handlers = handlers@;
    let ghost mid_res = response@;
    proof {
        assert(mid_handlers =~= pre.update(i as int, mid_handlers[i as int]));
        assert(forall|j: int|
            0 <= j < mid_handlers.len() ==> rh_wf(#[trigger] &mid_handlers[j]) == (if j == i {
                rh_wf(&mid_handlers[i as int])
            } else {
                rh_wf(&pre[j])
            }));
    }
    if matches!(hr, HandlerResult::End) {
        proof {
            assert(pre.skip(i as int)[0] == pre[i as int]);
            assert(mid_handlers.skip(i as int)[0] == mid_handlers[i as int]);
            assert(run_rel(
                pre.skip(i as int)[0],
                mid_handlers.skip(i as int)[0],
                request@,
                old(response)@,
                mid_res,
                hr,
            ));
            assert(forall|j: int|
                1 <= j < pre.skip(i as int).len() ==> pre.skip(i as int)[j]
                    == mid_handlers.skip(i as int)[j]);
            assert(handlers_rel(
                pre.skip(i as int),
                mid_handlers.skip(i as int),
                request@,
                old(response)@,
                mid_res,
            ));
        }
        return ;
    }
    run_handlers(handlers, i + 1, request, response);
    proof {
        assert(pre.skip(i as int)[0] == pre[i as int]);
        assert(handlers@.skip(i as int)[0] == mid_handlers[i as int]);
        assert(pre.skip(i as int).drop_first() =~= pre.skip(i + 1));
        assert(handlers@.skip(i as int).drop_first() =~= handlers@.skip(i + 1));
        assert(mid_handlers.skip(i + 1) =~= pre.skip(i + 1));
        assert(run_rel(
            pre.skip(i as int)[0],
            handlers@.skip(i as int)[0],
            request@,
            old(response)@,
            mid_res,
            hr,
        ));
        assert(handlers_rel(
            pre.skip(i as int),
            handlers@.skip(i as int),
            request@,
            old(response)@,
            response@,
        ));
    }
}

impl<C: Controller> Server<C> {
    /// Creates a new server instance with no handlers.
    pub fn create() -> (r: Self)
        ensures
            server_wf(r),
            r.route_handlers@.len() == 0,
            r.address@ == Seq::<char>::empty(),
    {
        Server { route_handlers: Vec::new(), address: String::new() }
    }

    /// Adds a router or a standalone middleware to the server; handlers run
    /// in registration order.
    pub fn use_handler(&mut self, handler: RequestHandler<C>)
        requires
            server_wf(*old(self)),
            rh_wf(&handler),
        ensures
            server_wf(*final(self)),
            final(self).route_handlers@ == old(self).route_handlers@.push(handler),
            final(self).address == old(self).address,
    {
        proof {
            assert(forall|i: int|
                0 <= i < old(self).route_handlers@.len() ==> rh_wf(
                    #[trigger] &old(self).route_handlers@[i],
                ));
        }
        self.route_handlers.push(handler);
        proof {
            assert(forall|i: int|
                0 <= i < self.route_handlers@.len() ==> rh_wf(
                    #[trigger] &self.route_handlers@[i],
                ));
        }
    }

    /// Runs the request through the handler chain against a fresh response
    /// and returns what the chain produced; useful for serving a parsed
    /// request and for tests, without listening on a port.
    pub fn mock_request(&mut self, request: Request) -> (r: Response)
        requires
            server_wf(*old(self)),
            request.wf(),
        ensures
            server_wf(*final(self)),
            final(self).address == old(self).address,
            r.wf(),
            handlers_rel(
                old(self).route_handlers@,
                final(self).route_handlers@,
                request@,
                default_response_view(),
                r@,
            ),
    {
        let mut response = Response::default();
        proof {
            assert(self.route_handlers@.skip(0) =~= self.route_handlers@);
        }
        run_handlers(&mut self.route_handlers, 0, &request, &mut response);
        proof {
            assert(old(self).route_handlers@.skip(0) =~= old(self).route_handlers@);
            assert(self.route_handlers@.skip(0) =~= self.route_handlers@);
        }
        response
    }
}

} // verus!
