//! Testing utilities for the server.

use vstd::prelude::*;

use crate::request::Request;
use crate::response::testing::responses_match;
use crate::response::{default_response_view, Response, ResponseView};
use crate::router::endpoint::Controller;
use crate::server::{handlers_rel, server_wf, Server};

verus! {

impl<C: Controller> Server<C> {
    /// Mocks a request and compares the produced response with an expected
    /// one, the way `Response::assert_eq` does. Useful for testing the server
    /// without listening on a port.
    pub fn mock_request_and_expect(&mut self, request: Request, expected_response: &Response) -> (r:
        bool)
        requires
            server_wf(*old(self)),
            request.wf(),
            expected_response.wf(),
        ensures
            server_wf(*final(self)),
            exists|produced: ResponseView|
                {
                    &&& #[trigger] handlers_rel(
                        old(self).route_handlers@,
                        final(self).route_handlers@,
                        request@,
                        default_response_view(),
                        produced,
                    )
                    &&& r == responses_match(produced, expected_response@)
                },
    {
        let response = self.mock_request(request);
        let verdict = Response::assert_eq(&response, expected_response);
        proof {
            assert(handlers_rel(
                old(self).route_handlers@,
                self.route_handlers@,
                request@,
                default_response_view(),
                response@,
            ));
        }
        verdict
    }
}

} // verus!
