//! The HTTP method of a request, and parsing a method from its textual name.

use vstd::prelude::*;

use crate::strutil::{seq_eq_ci, str_eq_ci};

verus! {

/// An enum that represents an HTTP method.
///
/// The HTTP method indicates the desired action to be performed for a given
/// resource. The methods supported by the router are listed here.
#[derive(Eq, PartialEq, Structural, Clone, Copy, Debug, Hash)]
pub enum HttpMethod {
    /// GET requests data from a resource.
    GET,
    /// POST submits data to be processed to a resource.
    POST,
    /// PUT updates data of a resource.
    PUT,
    /// PATCH applies partial modifications to a resource.
    PATCH,
    /// DELETE deletes a resource.
    DELETE,
}

/// Error for parsing an HTTP method from text.
#[derive(Eq, PartialEq, Structural, Clone, Copy, Debug)]
pub struct ParseHttpMethodError;

/// The method whose name matches `s` up to ASCII case, if any.
pub open spec fn spec_method_of(s: Seq<char>) -> Option<HttpMethod> {
    if seq_eq_ci(s, "get"@) {
        Some(HttpMethod::GET)
    } else if seq_eq_ci(s, "post"@) {
        Some(HttpMethod::POST)
    } else if seq_eq_ci(s, "put"@) {
        Some(HttpMethod::PUT)
    } else if seq_eq_ci(s, "patch"@) {
        Some(HttpMethod::PATCH)
    } else if seq_eq_ci(s, "delete"@) {
        Some(HttpMethod::DELETE)
    } else {
        None
    }
}

impl HttpMethod {
    /// Parses a method name, ignoring ASCII case, so that `"GET"`, `"get"`
    /// and `"Get"` all yield `HttpMethod::GET`. Every other string is
    /// rejected.
    pub fn new(method: &str) -> (r: Result<HttpMethod, ParseHttpMethodError>)
        ensures
            r matches Ok(m) ==> spec_method_of(method@) == Some(m),
            r is Err <==> spec_method_of(method@) is None,
    {
        if str_eq_ci(method, "get") {
            Ok(HttpMethod::GET)
        } else if str_eq_ci(method, "post") {
            Ok(HttpMethod::POST)
        } else if str_eq_ci(method, "put") {
            Ok(HttpMethod::PUT)
        } else if str_eq_ci(method, "patch") {
            Ok(HttpMethod::PATCH)
        } else if str_eq_ci(method, "delete") {
            Ok(HttpMethod::DELETE)
        } else {
            Err(ParseHttpMethodError)
        }
    }

    /// Whether `method` names a supported HTTP method, up to ASCII case.
    pub fn is_valid(method: &str) -> (r: bool)
        ensures
            r == (spec_method_of(method@) is Some),
    {
        match Self::new(method) {
            Ok(_) => true,
            Err(_) => false,
        }
    }

    /// The canonical upper-case name of the method.
    pub fn name(&self) -> (r: &'static str)
        ensures
            r@ == self.spec_name(),
    {
        match self {
            HttpMethod::GET => "GET",
            HttpMethod::POST => "POST",
            HttpMethod::PUT => "PUT",
            HttpMethod::PATCH => "PATCH",
            HttpMethod::DELETE => "DELETE",
        }
    }

    /// The canonical upper-case name of the method, as a character sequence.
    pub open spec fn spec_name(&self) -> Seq<char> {
        match self {
            HttpMethod::GET => "GET"@,
            HttpMethod::POST => "POST"@,
            HttpMethod::PUT => "PUT"@,
            HttpMethod::PATCH => "PATCH"@,
            HttpMethod::DELETE => "DELETE"@,
        }
    }
}

impl Default for HttpMethod {
    /// The default method is GET.
    fn default() -> (r: Self)
        ensures
            r == HttpMethod::GET,
    {
        HttpMethod::GET
    }
}

} // verus!
