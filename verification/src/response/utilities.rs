//! # Response utilities
//!
//! This module contains utility functions for the response object.

use vstd::prelude::*;

use crate::response::status_code::StatusCode;
use crate::response::{Response, ResponseView};
use crate::string_map::StringMap;

verus! {

impl Response {
    /// Gets the headers of the response.
    pub fn get_headers(&self) -> (r: &StringMap)
        requires
            self.wf(),
        ensures
            r@ == self@.headers,
            r.wf(),
    {
        &self.headers
    }

    /// Gets the requested header from the response.
    pub fn get_header(&self, key: &str) -> (r: Option<&String>)
        requires
            self.wf(),
        ensures
            match r {
                Some(v) => self@.headers.contains_key(key@) && v@ == self@.headers[key@],
                None => !self@.headers.contains_key(key@),
            },
    {
        self.headers.get(key)
    }

    /// Adds a single header to the response.
    pub fn set_header(&mut self, key: &str, value: &str)
        requires
            old(self).wf(),
        ensures
            final(self).wf(),
            final(self)@ == (ResponseView {
                headers: old(self)@.headers.insert(key@, value@),
                ..old(self)@
            }),
    {
        self.headers.insert(key, value);
    }

    /// Removes a header from the response.
    pub fn remove_header(&mut self, key: &str)
        requires
            old(self).wf(),
        ensures
            final(self).wf(),
            final(self)@ == (ResponseView {
                headers: old(self)@.headers.remove(key@),
                ..old(self)@
            }),
    {
        self.headers.remove(key);
    }

    /// Gets the body of the response as a byte vector reference.
    pub fn get_body(&self) -> (r: &Vec<u8>)
        ensures
            r@ == self@.body,
    {
        &self.body
    }

    /// Gets the body of the response as a mutable byte vector reference.
    pub fn get_body_mut(&mut self) -> (r: &mut Vec<u8>)
        ensures
            (*r)@ == old(self)@.body,
            final(self)@ == (ResponseView { body: (*final(r))@, ..old(self)@ }),
            final(self).wf() == old(self).wf(),
    {
        &mut self.body
    }

    /// Replaces the body bytes, keeping the headers; only callable inside the
    /// crate, where the `Content-Type` discipline is kept by the callers.
    pub(crate) fn set_raw_body(&mut self, body: Vec<u8>)
        ensures
            final(self)@ == (ResponseView { body: body@, ..old(self)@ }),
            final(self).wf() == old(self).wf(),
    {
        self.body = body;
    }

    /// Updates the body of the response; errs when the response has no body
    /// yet.
    pub fn set_body(&mut self, body: Vec<u8>) -> (r: Result<(), String>)
        ensures
            r is Ok <==> old(self)@.body.len() > 0,
            old(self)@.body.len() == 0 <==> (r matches Err(m) && m@ == "Request has no body."@),
            r is Err ==> final(self)@ == old(self)@,
            r is Ok ==> final(self)@ == (ResponseView { body: body@, ..old(self)@ }),
            final(self).wf() == old(self).wf(),
    {
        if self.body.is_empty() {
            return Err(String::from_str("Request has no body."));
        }
        self.body = body;
        Ok(())
    }

    /// Returns the value of the local variable.
    ///
    /// `Local` variables can be used to store data that is set in a
    /// middleware and read in the controller.
    pub fn get_local(&self, key: &str) -> (r: Option<&String>)
        requires
            self.wf(),
        ensures
            match r {
                Some(v) => self@.locals.contains_key(key@) && v@ == self@.locals[key@],
                None => !self@.locals.contains_key(key@),
            },
    {
        self.locals.get(key)
    }

    /// Adds a local variable to the response.
    pub fn set_local(&mut self, key: &str, value: &str)
        requires
            old(self).wf(),
        ensures
            final(self).wf(),
            final(self)@ == (ResponseView {
                locals: old(self)@.locals.insert(key@, value@),
                ..old(self)@
            }),
    {
        self.locals.insert(key, value);
    }

    /// Returns the status code of the response.
    pub fn get_status(&self) -> (r: StatusCode)
        ensures
            r == self@.status_code,
    {
        self.status_code
    }

    /// Returns true exactly when the status code is a client or server error
    /// (4xx or 5xx).
    pub fn is_error(&self) -> (r: bool)
        ensures
            r == (self@.status_code.spec_code() >= 400),
    {
        match self.status_code {
            StatusCode::BadRequest => true,
            StatusCode::Unauthorized => true,
            StatusCode::Forbidden => true,
            StatusCode::NotFound => true,
            StatusCode::MethodNotAllowed => true,
            StatusCode::RequestTimeout => true,
            StatusCode::LengthRequired => true,
            StatusCode::UnsupportedMediaType => true,
            StatusCode::IAmATeapot => true,
            StatusCode::TooManyRequests => true,
            StatusCode::InternalServerError => true,
            StatusCode::NotImplemented => true,
            StatusCode::ServiceUnavailable => true,
            StatusCode::GatewayTimeout => true,
            StatusCode::HttpVersionNotSupported => true,
            _ => false,
        }
    }
}

} // verus!
