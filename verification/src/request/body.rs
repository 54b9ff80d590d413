//! The body of an HTTP request.

use vstd::prelude::*;

use crate::json::{is_json_bytes, json_clone, json_from_slice};
use crate::request::ParseHttpRequestError;
use crate::strutil::{clone_vec_u8, str_eq, string_push};

verus! {

/// Represents the body of the HTTP request.
///
/// The body can be of different types:
/// - Binary: a binary body.
/// - Text: a text body.
/// - Json: a JSON body.
/// - Empty: no body, or a body that is not supported.
pub enum RequestBody {
    /// Represents a binary body.
    Binary(Vec<u8>),
    /// Represents a text body.
    Text(String),
    /// Represents a JSON body.
    Json(serde_json::Value),
    /// Represents that there is no body or a body that is not supported.
    Empty,
}

/// A request body as the contracts see it.
pub enum BodyView {
    /// The bytes of a binary body.
    Binary(Seq<u8>),
    /// The characters of a text body.
    Text(Seq<char>),
    /// The parsed value of a JSON body.
    Json(serde_json::Value),
    /// No body.
    Empty,
}

/// The view of a request body.
pub open spec fn body_view(b: &RequestBody) -> BodyView {
    match b {
        RequestBody::Binary(v) => BodyView::Binary(v@),
        RequestBody::Text(s) => BodyView::Text(s@),
        RequestBody::Json(v) => BodyView::Json(*v),
        RequestBody::Empty => BodyView::Empty,
    }
}

/// Each byte read as one character, as `u8 as char` does.
pub open spec fn bytes_as_chars(b: Seq<u8>) -> Seq<char> {
    b.map_values(|x: u8| x as char)
}

impl RequestBody {
    /// Parses body bytes according to the content type: empty bytes make no
    /// body; `application/json` is parsed as JSON and rejected when invalid;
    /// `plain/text` is read byte-by-byte as text; anything else is kept as
    /// binary.
    pub fn parse(body: &[u8], content_type: &str) -> (r: Result<RequestBody, ParseHttpRequestError>)
        ensures
            body@.len() == 0 ==> (r matches Ok(b) && body_view(&b) is Empty),
            body@.len() > 0 && content_type@ == "application/json"@ ==> match r {
                Ok(b) => is_json_bytes(body@) && body_view(&b) is Json,
                Err(_) => !is_json_bytes(body@),
            },
            body@.len() > 0 && content_type@ == "plain/text"@ ==> (r matches Ok(b) && body_view(
                &b,
            ) == BodyView::Text(bytes_as_chars(body@))),
            body@.len() > 0 && content_type@ != "application/json"@ && content_type@
                != "plain/text"@ ==> (r matches Ok(b) && body_view(&b) == BodyView::Binary(body@)),
    {
        proof {
            reveal_strlit("application/json");
            reveal_strlit("plain/text");
            assert("application/json"@.len() != "plain/text"@.len());
        }
        if body.len() == 0 {
            return Ok(RequestBody::Empty);
        }
        if str_eq(content_type, "application/json") {
            match json_from_slice(body) {
                Ok(json) => Ok(RequestBody::Json(json)),
                Err(_) => Err(ParseHttpRequestError),
            }
        } else if str_eq(content_type, "plain/text") {
            let n = body.len();
            let mut text = String::new();
            let mut i: usize = 0;
            while i < n
                invariant
                    n == body@.len(),
                    0 <= i <= n,
                    text@ =~= bytes_as_chars(body@).take(i as int),
                decreases n - i,
            {
                string_push(&mut text, body[i] as char);
                proof {
                    assert(bytes_as_chars(body@).take(i + 1) =~= bytes_as_chars(body@).take(
                        i as int,
                    ).push(body@[i as int] as char));
                }
                i = i + 1;
            }
            proof {
                assert(bytes_as_chars(body@).take(n as int) =~= bytes_as_chars(body@));
            }
            Ok(RequestBody::Text(text))
        } else {
            let mut bytes: Vec<u8> = Vec::new();
            let n = body.len();
            let mut i: usize = 0;
            while i < n
                invariant
                    n == body@.len(),
                    0 <= i <= n,
                    bytes@ =~= body@.take(i as int),
                decreases n - i,
            {
                bytes.push(body[i]);
                proof {
                    assert(body@.take(i + 1) =~= body@.take(i as int).push(body@[i as int]));
                }
                i = i + 1;
            }
            proof {
                assert(body@.take(n as int) =~= body@);
            }
            Ok(RequestBody::Binary(bytes))
        }
    }
}

impl Clone for RequestBody {
    /// Clones the body; the clone has the same view.
    fn clone(&self) -> (r: Self)
        ensures
            body_view(&r) == body_view(self),
    {
        match self {
            RequestBody::Binary(v) => RequestBody::Binary(clone_vec_u8(v)),
            RequestBody::Text(s) => RequestBody::Text(s.clone()),
            RequestBody::Json(v) => RequestBody::Json(json_clone(v)),
            RequestBody::Empty => RequestBody::Empty,
        }
    }
}

} // verus!
