//! A registered route: its path and method, as a plain record.

use vstd::prelude::*;

use crate::http_method::HttpMethod;

verus! {

/// A (path, method) pair naming a registered route.
#[derive(Debug, Clone)]
pub struct Route {
    /// The path pattern text.
    pub path: String,
    /// The HTTP method.
    pub method: HttpMethod,
}

impl Route {
    /// Creates a route record.
    pub fn new(path: &str, method: &HttpMethod) -> (r: Route)
        ensures
            r.path@ == path@,
            r.method == *method,
    {
        let method = *method;
        Route { path: path.to_owned(), method }
    }
}

} // verus!
