//! The request line of an HTTP request: method, URI and version, with the
//! URI split into path segments.

use vstd::prelude::*;

use crate::http_method::{spec_method_of, HttpMethod};
use crate::strutil::{
    clone_string_vec, spec_split, spec_starts_with, spec_trim, split_str, str_starts_with,
    trim_str,
};

verus! {

/// Drops the first `n` elements, or everything when fewer remain.
pub open spec fn skip_upto<A>(s: Seq<A>, n: int) -> Seq<A> {
    if s.len() <= n {
        Seq::empty()
    } else {
        s.skip(n)
    }
}

/// The path segments of a URI: the pieces between slashes, without the
/// leading empty piece of an absolute path, or without the scheme and host of
/// a full URL.
pub open spec fn spec_uri_segments(uri: Seq<char>) -> Seq<Seq<char>> {
    if spec_starts_with(uri, "/"@) {
        skip_upto(spec_split(uri, '/'), 1)
    } else if spec_starts_with(uri, "http"@) {
        skip_upto(spec_split(uri, '/'), 3)
    } else {
        skip_upto(spec_split(uri, '/'), 1)
    }
}

/// The request line of an HTTP request.
pub(crate) struct RequestLine {
    pub(crate) method: HttpMethod,
    pub(crate) uri: String,
    pub(crate) version: String,
    pub(crate) path_array: Vec<String>,
}

/// Error for parsing the request line of an HTTP request.
#[derive(Eq, PartialEq, Structural, Debug, Clone, Copy)]
pub struct ParseRequestLineError;

impl RequestLine {
    /// Splits a URI into its path segments.
    pub(crate) fn uri_parser(uri: &str) -> (r: Vec<String>)
        ensures
            r.deep_view() == spec_uri_segments(uri@),
    {
        let parts = split_str(uri, '/');
        let skip: usize = if str_starts_with(uri, "/") {
            1
        } else if str_starts_with(uri, "http") {
            3
        } else {
            1
        };
        let n = parts.len();
        let mut out: Vec<String> = Vec::new();
        let mut i: usize = skip;
        if i > n {
            i = n;
        }
        let ghost base = i as int;
        while i < n
            invariant
                n == parts@.len(),
                base <= i <= n,
                0 <= base,
                out@.len() == i - base,
                forall|j: int| 0 <= j < out@.len() ==> out@[j] == parts@[base + j],
            decreases n - i,
        {
            out.push(parts[i].clone());
            i = i + 1;
        }
        proof {
            if parts@.len() <= skip {
                assert(out.deep_view() =~~= skip_upto(parts.deep_view(), skip as int));
            } else {
                assert(out@ =~= parts@.skip(skip as int));
                assert(out.deep_view() =~~= parts.deep_view().skip(skip as int));
            }
        }
        out
    }

    /// Builds a request line from an already-parsed method.
    pub(crate) fn from_parts(method: HttpMethod, uri: &str, version: &str) -> (r: RequestLine)
        ensures
            r.method == method,
            r.uri@ == uri@,
            r.version@ == version@,
            r.path_array.deep_view() == spec_uri_segments(uri@),
    {
        RequestLine {
            method,
            uri: uri.to_owned(),
            version: version.to_owned(),
            path_array: Self::uri_parser(uri),
        }
    }

    /// Builds a request line, parsing the method name; exactly the supported
    /// method names (up to ASCII case) are accepted.
    pub(crate) fn new(method: &str, uri: &str, version: &str) -> (r: Result<
        RequestLine,
        ParseRequestLineError,
    >)
        ensures
            r matches Ok(rl) ==> {
                &&& spec_method_of(method@) == Some(rl.method)
                &&& rl.uri@ == uri@
                &&& rl.version@ == version@
                &&& rl.path_array.deep_view() == spec_uri_segments(uri@)
            },
            r is Err <==> spec_method_of(method@) is None,
    {
        match HttpMethod::new(method) {
            Ok(method) => Ok(Self::from_parts(method, uri, version)),
            Err(_) => Err(ParseRequestLineError),
        }
    }

    /// Parses a whole request line such as `GET /index.html HTTP/1.1`: three
    /// space-separated words, a supported method and an `HTTP/` version.
    pub(crate) fn parse(request_line: &str) -> (r: Result<RequestLine, ParseRequestLineError>)
        ensures
            ({
                let words = spec_split(request_line@, ' ');
                match r {
                    Ok(rl) => {
                        &&& words.len() == 3
                        &&& spec_method_of(words[0]) is Some
                        &&& spec_method_of(spec_trim(words[0])) == Some(rl.method)
                        &&& rl.uri@ == spec_trim(words[1])
                        &&& rl.version@ == spec_trim(words[2])
                        &&& rl.path_array.deep_view() == spec_uri_segments(spec_trim(words[1]))
                        &&& spec_starts_with(words[2], "HTTP/"@)
                    },
                    Err(_) => words.len() != 3 || spec_method_of(words[0]) is None
                        || !spec_starts_with(words[2], "HTTP/"@) || spec_method_of(
                        spec_trim(words[0]),
                    ) is None,
                }
            }),
    {
        let words = split_str(request_line, ' ');
        if words.len() != 3 {
            return Err(ParseRequestLineError);
        }
        proof {
            assert(words.deep_view()[0] == words@[0]@);
            assert(words.deep_view()[1] == words@[1]@);
            assert(words.deep_view()[2] == words@[2]@);
        }
        if !HttpMethod::is_valid(words[0].as_str()) {
            return Err(ParseRequestLineError);
        }
        if !str_starts_with(words[2].as_str(), "HTTP/") {
            return Err(ParseRequestLineError);
        }
        let method = trim_str(words[0].as_str());
        let uri = trim_str(words[1].as_str());
        let version = trim_str(words[2].as_str());
        Self::new(method.as_str(), uri.as_str(), version.as_str())
    }

    pub(crate) fn get_method(&self) -> (r: &HttpMethod)
        ensures
            *r == self.method,
    {
        &self.method
    }

    pub(crate) fn get_path_array(&self) -> (r: &Vec<String>)
        ensures
            r@ == self.path_array@,
    {
        &self.path_array
    }

    pub(crate) fn get_version(&self) -> (r: &String)
        ensures
            r@ == self.version@,
    {
        &self.version
    }

    pub(crate) fn get_path(&self) -> (r: &str)
        ensures
            r@ == self.uri@,
    {
        self.uri.as_str()
    }

    pub(crate) fn set_method(&mut self, method: HttpMethod)
        ensures
            final(self).method == method,
            final(self).uri == old(self).uri,
            final(self).version == old(self).version,
            final(self).path_array == old(self).path_array,
    {
        self.method = method;
    }

    /// Replaces the URI and re-derives the path segments from it.
    pub(crate) fn set_uri(&mut self, uri: &str)
        ensures
            final(self).method == old(self).method,
            final(self).uri@ == uri@,
            final(self).version == old(self).version,
            final(self).path_array.deep_view() == spec_uri_segments(uri@),
    {
        self.uri = uri.to_owned();
        self.path_array = Self::uri_parser(uri);
    }

    /// Replaces the version, trimmed of surrounding whitespace.
    pub(crate) fn set_version(&mut self, version: &str)
        ensures
            final(self).method == old(self).method,
            final(self).uri == old(self).uri,
            final(self).version@ == spec_trim(version@),
            final(self).path_array == old(self).path_array,
    {
        self.version = trim_str(version);
    }
}

impl RequestLine {
    /// Copies the request line field by field.
    pub(crate) fn duplicate(&self) -> (r: Self)
        ensures
            r.method == self.method,
            r.uri == self.uri,
            r.version == self.version,
            r.path_array@ == self.path_array@,
    {
        RequestLine {
            method: self.method,
            uri: self.uri.clone(),
            version: self.version.clone(),
            path_array: clone_string_vec(&self.path_array),
        }
    }
}

} // verus!
