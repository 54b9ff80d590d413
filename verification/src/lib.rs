//! Krustie is a small HTTP server toolkit: request parsing, a path-based
//! router built on a segment trie, a middleware pipeline with short-circuit
//! control flow, and response building.
//!
//! The route table is built once during registration and is treated as
//! read-only while serving: dispatch takes the tree by shared reference for
//! lookups and only mutates middleware state, so the borrow rules themselves
//! keep registration and serving apart. Every dispatch walks the trie,
//! collects parameter bindings, and runs the middleware tiers in order
//! (global, router, endpoint) around the matched controller.
//!
//! Controllers are a trait applications implement; each controller states its
//! own guarantee as a specification, and the dispatch contract carries that
//! guarantee to the final response. Middleware is deliberately a closed
//! catalog of kinds — the ones this crate ships: gzip, rate limiting, header
//! writing and removal — rather than an open trait, so that a chain's whole
//! effect on the response is a mathematical function of its inputs and the
//! short-circuit law about it can be stated and proved; a new middleware kind
//! is added by extending the catalog and its step function.
//!
//! Listening on sockets, reading connections and serving files from disk are
//! the embedding's work; the library starts from parsed head lines and body
//! bytes.

use vstd::prelude::*;

pub mod http_method;
pub mod json;
pub mod middleware;
pub mod request;
pub mod response;
pub mod router;
pub mod server;
pub mod string_map;
pub mod strutil;

pub use middleware::Middleware;
pub use request::builder::RequestBuilder;
pub use http_method::HttpMethod;
pub use request::Request;
pub use request::body::RequestBody;
pub use response::status_code::StatusCode;
pub use response::Response;
pub use router::endpoint::Endpoint;
pub use router::Router;
pub use server::route_handler::HandlerResult;
pub use server::Server;

verus! {

broadcast use vstd::slice::axiom_spec_len;

} // verus!
