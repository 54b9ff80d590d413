//! RequestBuilder module
//!
//! This module contains the `RequestBuilder` struct and its implementation.

use vstd::prelude::*;

use crate::http_method::HttpMethod;
use crate::request::body::{body_view, RequestBody};
use crate::request::parser::spec_queries_of;
use crate::request::request_line::spec_uri_segments;
use crate::request::{Request, RequestView};
use crate::strutil::spec_trim;

verus! {

/// A builder for the `Request` struct, used to create a request by hand, for
/// tests and mock dispatches.
pub struct RequestBuilder {
    request: Request,
}

impl RequestBuilder {
    /// Starts from the default request.
    pub(crate) fn new() -> (r: Self)
        ensures
            r.wf(),
            r.view() == Request::default_view(),
    {
        RequestBuilder { request: Request::default() }
    }

    /// The request built so far, as the contracts see it.
    pub closed spec fn view(&self) -> RequestView {
        self.request@
    }

    /// The builder's well-formedness.
    pub closed spec fn wf(&self) -> bool {
        self.request.wf()
    }

    /// Sets the whole request line of the HTTP request.
    pub fn request_line(&mut self, method: HttpMethod, path: &str, version: &str)
        requires
            old(self).wf(),
        ensures
            final(self).wf(),
            final(self).view() == (RequestView {
                method,
                uri: path@,
                path_array: spec_uri_segments(path@),
                queries: spec_queries_of(spec_uri_segments(path@)),
                version: spec_trim(version@),
                ..old(self).view()
            }),
    {
        self.request.set_method(method);
        self.request.set_uri(path);
        self.request.set_version(version);
    }

    /// Sets the method of the HTTP request.
    pub fn method(&mut self, method: HttpMethod)
        requires
            old(self).wf(),
        ensures
            final(self).wf(),
            final(self).view() == (RequestView { method, ..old(self).view() }),
    {
        self.request.set_method(method);
    }

    /// Sets the path of the HTTP request; the path segments and query
    /// parameters follow from it.
    pub fn path(&mut self, path: &str)
        requires
            old(self).wf(),
        ensures
            final(self).wf(),
            final(self).view() == (RequestView {
                uri: path@,
                path_array: spec_uri_segments(path@),
                queries: spec_queries_of(spec_uri_segments(path@)),
                ..old(self).view()
            }),
    {
        self.request.set_uri(path);
    }

    /// Sets the version of the HTTP request.
    pub fn version(&mut self, version: &str)
        requires
            old(self).wf(),
        ensures
            final(self).wf(),
            final(self).view() == (RequestView {
                version: spec_trim(version@),
                ..old(self).view()
            }),
    {
        self.request.set_version(version);
    }

    /// Sets one header of the HTTP request.
    pub fn header(&mut self, key: &str, value: &str)
        requires
            old(self).wf(),
        ensures
            final(self).wf(),
            final(self).view() == (RequestView {
                headers: old(self).view().headers.insert(key@, value@),
                ..old(self).view()
            }),
    {
        self.request.set_header(key, value);
    }

    /// Sets several headers of the HTTP request, in order.
    pub fn headers(&mut self, headers: Vec<(&str, &str)>)
        requires
            old(self).wf(),
        ensures
            final(self).wf(),
            final(self).view() == (RequestView {
                headers: spec_insert_str_pairs(old(self).view().headers, headers@),
                ..old(self).view()
            }),
    {
        let n = headers.len();
        let mut i: usize = 0;
        proof {
            assert(headers@.skip(0) =~= headers@);
        }
        while i < n
            invariant
                self.wf(),
                n == headers@.len(),
                0 <= i <= n,
                self.view() == (RequestView { headers: self.view().headers, ..old(self).view() }),
                spec_insert_str_pairs(old(self).view().headers, headers@)
                    == spec_insert_str_pairs(self.view().headers, headers@.skip(i as int)),
            decreases n - i,
        {
            proof {
                assert(headers@.skip(i as int).drop_first() =~= headers@.skip(i + 1));
                assert(headers@.skip(i as int)[0] == headers@[i as int]);
            }
            self.request.set_header(headers[i].0, headers[i].1);
            i = i + 1;
        }
        proof {
            assert(headers@.skip(n as int) =~= Seq::<(&str, &str)>::empty());
        }
    }

    /// Sets the body of the HTTP request.
    pub fn body(&mut self, body: RequestBody)
        requires
            old(self).wf(),
        ensures
            final(self).wf(),
            final(self).view() == (RequestView { body: body_view(&body), ..old(self).view() }),
    {
        self.request.set_body(body);
    }

    /// Builds the `Request` value.
    pub fn build(&self) -> (r: Request)
        requires
            self.wf(),
        ensures
            r.wf(),
            r@ == self.view(),
    {
        self.request.clone()
    }
}

/// Inserting a sequence of borrowed pairs into a map, in order.
pub open spec fn spec_insert_str_pairs(
    m: Map<Seq<char>, Seq<char>>,
    ps: Seq<(&str, &str)>,
) -> Map<Seq<char>, Seq<char>>
    decreases ps.len(),
{
    if ps.len() == 0 {
        m
    } else {
        spec_insert_str_pairs(m.insert(ps[0].0@, ps[0].1@), ps.drop_first())
    }
}

impl Request {
    /// Returns a new RequestBuilder instance.
    pub fn builder() -> (r: RequestBuilder)
        ensures
            r.wf(),
            r.view() == Request::default_view(),
    {
        RequestBuilder::new()
    }
}

} // verus!
