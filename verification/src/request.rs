//! The immutable HTTP request snapshot handed to middleware and controllers,
//! with its one mutable-once slot: the route parameter bindings set right
//! before the controller runs.

use vstd::prelude::*;

use crate::http_method::HttpMethod;
pub use crate::request::body::{body_view, BodyView, RequestBody};
use crate::request::request_line::spec_uri_segments;
use crate::request::request_line::RequestLine;
use crate::string_map::StringMap;

pub use crate::http_method;

pub mod body;
pub mod builder;
pub mod parser;
pub(crate) mod request_line;

verus! {

/// The address of the peer that sent a request: the IP as an integer (IPv4
/// mapped into the low 32 bits) and the port.
#[derive(Eq, PartialEq, Structural, Debug, Clone, Copy, Hash)]
pub struct PeerAddr {
    /// The IP address as an integer.
    pub ip: u128,
    /// The TCP port.
    pub port: u16,
}

/// The request as the contracts see it.
pub struct RequestView {
    /// The HTTP method.
    pub method: HttpMethod,
    /// The URI as given in the request line.
    pub uri: Seq<char>,
    /// The HTTP version.
    pub version: Seq<char>,
    /// The path split into segments; a trailing query string stays attached
    /// to the last segment.
    pub path_array: Seq<Seq<char>>,
    /// The request headers, with lower-cased names.
    pub headers: Map<Seq<char>, Seq<char>>,
    /// The query parameters.
    pub queries: Map<Seq<char>, Seq<char>>,
    /// The route parameter bindings.
    pub params: Map<Seq<char>, Seq<char>>,
    /// The request body.
    pub body: BodyView,
    /// The address of the peer.
    pub peer_addr: PeerAddr,
}

/// An immutable HTTP request snapshot. The `params` slot is populated exactly
/// once, on a clone made just before the matched controller is invoked.
pub struct Request {
    request: RequestLine,
    headers: StringMap,
    queries: StringMap,
    params: StringMap,
    body: RequestBody,
    peer_addr: PeerAddr,
}

/// Represents an error that occurs when parsing an HTTP request.
#[derive(Eq, PartialEq, Structural, Debug, Clone, Copy)]
pub struct ParseHttpRequestError;

impl View for Request {
    type V = RequestView;

    closed spec fn view(&self) -> RequestView {
        RequestView {
            method: self.request.method,
            uri: self.request.uri@,
            version: self.request.version@,
            path_array: self.request.path_array.deep_view(),
            headers: self.headers@,
            queries: self.queries@,
            params: self.params@,
            body: body_view(&self.body),
            peer_addr: self.peer_addr,
        }
    }
}

impl Request {
    /// The representation invariant: the three string maps are well-formed.
    pub closed spec fn wf(&self) -> bool {
        self.headers.wf() && self.queries.wf() && self.params.wf()
    }

    /// Returns the request headers.
    pub fn get_headers(&self) -> (r: &StringMap)
        requires
            self.wf(),
        ensures
            r@ == self@.headers,
            r.wf(),
    {
        &self.headers
    }

    /// Returns the value of the requested header.
    pub fn get_header(&self, key: &str) -> (r: Option<&str>)
        requires
            self.wf(),
        ensures
            match r {
                Some(v) => self@.headers.contains_key(key@) && v@ == self@.headers[key@],
                None => !self@.headers.contains_key(key@),
            },
    {
        match self.headers.get(key) {
            Some(v) => Some(v.as_str()),
            None => None,
        }
    }

    /// Returns the body of the HTTP request.
    pub fn get_body(&self) -> (r: &RequestBody)
        ensures
            body_view(r) == self@.body,
    {
        &self.body
    }

    /// Returns the peer address of the HTTP request.
    pub fn get_peer_addr(&self) -> (r: PeerAddr)
        ensures
            r == self@.peer_addr,
    {
        self.peer_addr
    }

    /// Returns the query parameters of the HTTP request.
    pub fn get_query_params(&self) -> (r: &StringMap)
        requires
            self.wf(),
        ensures
            r@ == self@.queries,
            r.wf(),
    {
        &self.queries
    }

    /// Returns the requested query parameter of the HTTP request.
    pub fn get_query_param(&self, key: &str) -> (r: Option<&String>)
        requires
            self.wf(),
        ensures
            match r {
                Some(v) => self@.queries.contains_key(key@) && v@ == self@.queries[key@],
                None => !self@.queries.contains_key(key@),
            },
    {
        self.queries.get(key)
    }

    /// Returns the path of the HTTP request as segments; any query string
    /// stays attached to the last segment.
    pub fn get_path_array(&self) -> (r: &Vec<String>)
        ensures
            r.deep_view() == self@.path_array,
    {
        self.request.get_path_array()
    }

    /// Returns the path of the HTTP request as given in the request line.
    pub fn get_path(&self) -> (r: &str)
        ensures
            r@ == self@.uri,
    {
        self.request.get_path()
    }

    /// Returns the requested route parameter binding of the HTTP request.
    pub fn get_param(&self, key: &str) -> (r: Option<&String>)
        requires
            self.wf(),
        ensures
            match r {
                Some(v) => self@.params.contains_key(key@) && v@ == self@.params[key@],
                None => !self@.params.contains_key(key@),
            },
    {
        self.params.get(key)
    }

    /// Returns the version of the HTTP request.
    pub fn get_version(&self) -> (r: &str)
        ensures
            r@ == self@.version,
    {
        self.request.get_version().as_str()
    }

    /// Returns the method of the HTTP request.
    pub fn get_method(&self) -> (r: &HttpMethod)
        ensures
            *r == self@.method,
    {
        self.request.get_method()
    }

    /// Replaces the route parameter bindings; used on the per-dispatch clone
    /// just before the controller runs.
    pub(crate) fn add_param(&mut self, params: StringMap)
        requires
            old(self).wf(),
            params.wf(),
        ensures
            final(self).wf(),
            final(self)@ == (RequestView { params: params@, ..old(self)@ }),
    {
        self.params = params;
    }

    /// Sets the method; used by the builder.
    pub(crate) fn set_method(&mut self, method: HttpMethod)
        requires
            old(self).wf(),
        ensures
            final(self).wf(),
            final(self)@ == (RequestView { method, ..old(self)@ }),
    {
        self.request.set_method(method);
    }

    /// Sets the URI, re-deriving the path segments and the query parameters;
    /// used by the builder.
    pub(crate) fn set_uri(&mut self, path: &str)
        requires
            old(self).wf(),
        ensures
            final(self).wf(),
            final(self)@ == (RequestView {
                uri: path@,
                path_array: crate::request::request_line::spec_uri_segments(path@),
                queries: crate::request::parser::spec_queries_of(
                    crate::request::request_line::spec_uri_segments(path@),
                ),
                ..old(self)@
            }),
    {
        self.request.set_uri(path);
        self.queries = crate::request::parser::parse_queries(self.request.get_path_array());
    }

    /// Sets the version, trimmed; used by the builder.
    pub(crate) fn set_version(&mut self, version: &str)
        requires
            old(self).wf(),
        ensures
            final(self).wf(),
            final(self)@ == (RequestView {
                version: crate::strutil::spec_trim(version@),
                ..old(self)@
            }),
    {
        self.request.set_version(version);
    }

    /// Adds a header, keeping the name as given; used by the builder.
    pub(crate) fn set_header(&mut self, key: &str, value: &str)
        requires
            old(self).wf(),
        ensures
            final(self).wf(),
            final(self)@ == (RequestView {
                headers: old(self)@.headers.insert(key@, value@),
                ..old(self)@
            }),
    {
        self.headers.insert(key, value);
    }

    /// Sets the body; used by the builder.
    pub(crate) fn set_body(&mut self, body: RequestBody)
        requires
            old(self).wf(),
        ensures
            final(self).wf(),
            final(self)@ == (RequestView { body: body_view(&body), ..old(self)@ }),
    {
        self.body = body;
    }

    /// Builds a request from its parts; used by the parser and the builder.
    pub(crate) fn from_parts(
        request: RequestLine,
        headers: StringMap,
        queries: StringMap,
        params: StringMap,
        body: RequestBody,
        peer_addr: PeerAddr,
    ) -> (r: Request)
        requires
            headers.wf(),
            queries.wf(),
            params.wf(),
        ensures
            r.wf(),
            r@ == (RequestView {
                method: request.method,
                uri: request.uri@,
                version: request.version@,
                path_array: request.path_array.deep_view(),
                headers: headers@,
                queries: queries@,
                params: params@,
                body: body_view(&body),
                peer_addr,
            }),
    {
        Request { request, headers, queries, params, body, peer_addr }
    }
}

impl Request {
    /// The view of the default request: `GET / HTTP/1.1` from `0.0.0.0:0`,
    /// with no headers, queries, parameters or body.
    pub open spec fn default_view() -> RequestView {
        RequestView {
            method: HttpMethod::GET,
            uri: "/"@,
            version: "HTTP/1.1"@,
            path_array: crate::request::request_line::spec_uri_segments("/"@),
            headers: Map::<Seq<char>, Seq<char>>::empty(),
            queries: Map::<Seq<char>, Seq<char>>::empty(),
            params: Map::<Seq<char>, Seq<char>>::empty(),
            body: BodyView::Empty,
            peer_addr: PeerAddr { ip: 0, port: 0 },
        }
    }
}

impl Default for Request {
    /// A fresh request: `GET / HTTP/1.1` from `0.0.0.0:0`, with no headers,
    /// queries, parameters or body.
    fn default() -> (r: Self)
        ensures
            r.wf(),
            r@ == Request::default_view(),
    {
        Request {
            request: RequestLine::from_parts(HttpMethod::GET, "/", "HTTP/1.1"),
            headers: StringMap::new(),
            queries: StringMap::new(),
            params: StringMap::new(),
            body: RequestBody::Empty,
            peer_addr: PeerAddr { ip: 0, port: 0 },
        }
    }
}

impl Clone for Request {
    /// Clones the request; the clone has the same view.
    fn clone(&self) -> (r: Self)
        ensures
            r@ == self@,
            r.wf() == self.wf(),
    {
        Request {
            request: self.request.duplicate(),
            headers: self.headers.clone(),
            queries: self.queries.clone(),
            params: self.params.clone(),
            body: self.body.clone(),
            peer_addr: self.peer_addr,
        }
    }
}

} // verus!
