//! The HTTP response accumulator: status code, headers, locals and body,
//! together with its serialization to wire format.

use vstd::prelude::*;

use crate::response::status_code::StatusCode;
use crate::string_map::{entries_sorted, insert_pairs, map_of, StringMap};
use crate::strutil::{spec_dec, usize_to_string, utf8_lossy_of, from_utf8_lossy_string};

pub mod body;
pub mod content_type;
pub mod status_code;
pub mod testing;
pub mod utilities;

verus! {

/// The response as the contracts see it: the version and status line data,
/// the header and local maps, and the body bytes.
pub struct ResponseView {
    /// The HTTP version written in the status line.
    pub http_version: Seq<char>,
    /// The status code of the response.
    pub status_code: StatusCode,
    /// The response headers.
    pub headers: Map<Seq<char>, Seq<char>>,
    /// The local variables middleware leaves for controllers.
    pub locals: Map<Seq<char>, Seq<char>>,
    /// The body bytes.
    pub body: Seq<u8>,
}

/// A mutable response accumulator, passed by reference through the middleware
/// chain and finally serialized to the wire.
pub struct Response {
    http_version: String,
    status_code: StatusCode,
    headers: StringMap,
    locals: StringMap,
    body: Vec<u8>,
}

impl View for Response {
    type V = ResponseView;

    closed spec fn view(&self) -> ResponseView {
        ResponseView {
            http_version: self.http_version@,
            status_code: self.status_code,
            headers: self.headers@,
            locals: self.locals@,
            body: self.body@,
        }
    }
}

/// One rendered header line per entry, in entry order.
pub open spec fn render_entries(es: Seq<(String, String)>) -> Seq<char>
    decreases es.len(),
{
    if es.len() == 0 {
        Seq::empty()
    } else {
        es[0].0@ + ": "@ + es[0].1@ + "\r\n"@ + render_entries(es.drop_first())
    }
}

/// The headers as serialization sees them: when a body is present,
/// `Content-Length` is set from its length and `Content-Type` defaults to
/// `text/plain` if absent.
pub open spec fn spec_export_headers(v: ResponseView) -> Map<Seq<char>, Seq<char>> {
    if v.body.len() > 0 {
        let m = v.headers.insert("Content-Length"@, spec_dec(v.body.len()));
        if m.contains_key("Content-Type"@) {
            m
        } else {
            m.insert("Content-Type"@, "text/plain"@)
        }
    } else {
        v.headers
    }
}

/// The status line of a response, without the trailing line break.
pub open spec fn spec_status_line(v: ResponseView) -> Seq<char> {
    v.http_version + " "@ + spec_dec(v.status_code.spec_code() as nat) + " "@
        + v.status_code.spec_message()
}

impl Response {
    /// The representation invariant: both string maps are well-formed.
    pub closed spec fn wf(&self) -> bool {
        self.headers.wf() && self.locals.wf()
    }

    /// Sets the status of the response.
    pub fn status(&mut self, status_code: StatusCode)
        requires
            old(self).wf(),
        ensures
            final(self).wf(),
            final(self)@ == (ResponseView { status_code, ..old(self)@ }),
    {
        self.status_code = status_code;
    }

    /// Adds each given pair to the response headers, in order, later pairs
    /// overriding earlier ones.
    pub fn headers(&mut self, headers: Vec<(String, String)>)
        requires
            old(self).wf(),
        ensures
            final(self).wf(),
            final(self)@ == (ResponseView {
                headers: insert_pairs(old(self)@.headers, headers@),
                ..old(self)@
            }),
    {
        let n = headers.len();
        let mut i: usize = 0;
        proof {
            assert(headers@.skip(0) =~= headers@);
        }
        while i < n
            invariant
                self.wf(),
                n == headers@.len(),
                0 <= i <= n,
                self@ == (ResponseView {
                    headers: self@.headers,
                    ..old(self)@
                }),
                insert_pairs(old(self)@.headers, headers@) == insert_pairs(
                    self@.headers,
                    headers@.skip(i as int),
                ),
            decreases n - i,
        {
            proof {
                assert(headers@.skip(i as int).drop_first() =~= headers@.skip(i + 1));
                assert(headers@.skip(i as int)[0] == headers@[i as int]);
            }
            self.headers.insert(headers[i].0.as_str(), headers[i].1.as_str());
            i = i + 1;
        }
        proof {
            assert(headers@.skip(n as int) =~= Seq::<(String, String)>::empty());
        }
    }

    /// Renders the status line and the header block, ending with the blank
    /// line that separates headers from the body. The headers appear sorted
    /// by name, with `Content-Length` (and a default `Content-Type`) added
    /// when a body is present.
    pub fn export_request_header(&self) -> (r: String)
        requires
            self.wf(),
        ensures
            exists|es: Seq<(String, String)>|
                {
                    &&& #[trigger] entries_sorted(es)
                    &&& map_of(es) == spec_export_headers(self@)
                    &&& r@ == spec_status_line(self@) + "\r\n"@ + render_entries(es) + "\r\n"@
                },
    {
        let mut hdrs = self.headers.clone();
        if self.body.len() > 0 {
            let len_text = usize_to_string(self.body.len());
            hdrs.insert("Content-Length", len_text.as_str());
            if !hdrs.contains_key("Content-Type") {
                hdrs.insert("Content-Type", "text/plain");
            }
        }
        let mut out = self.http_version.clone();
        out.append(" ");
        let code_text = self.status_code.to_string();
        out.append(code_text.as_str());
        out.append(" ");
        out.append(self.status_code.get_message());
        out.append("\r\n");
        proof {
            assert(out@ =~= spec_status_line(self@) + "\r\n"@);
        }
        let entries = hdrs.entries();
        let n = entries.len();
        let ghost es = entries@;
        let ghost start = out@;
        proof {
            hdrs.lemma_entries_view();
            assert(es.skip(0) =~= es);
        }
        let mut i: usize = 0;
        while i < n
            invariant
                n == es.len(),
                0 <= i <= n,
                entries@ == es,
                out@ + render_entries(es.skip(i as int)) =~= start + render_entries(es),
            decreases n - i,
        {
            proof {
                assert(es.skip(i as int).drop_first() =~= es.skip(i + 1));
                assert(es.skip(i as int)[0] == es[i as int]);
            }
            out.append(entries[i].0.as_str());
            out.append(": ");
            out.append(entries[i].1.as_str());
            out.append("\r\n");
            i = i + 1;
        }
        proof {
            assert(es.skip(n as int) =~= Seq::<(String, String)>::empty());
            assert(out@ =~= start + render_entries(es));
        }
        out.append("\r\n");
        proof {
            hdrs.lemma_entries_view();
            let wit = hdrs.spec_entries();
            assert(entries_sorted(wit) && map_of(wit) == spec_export_headers(self@) && out@
                == spec_status_line(self@) + "\r\n"@ + render_entries(wit) + "\r\n"@);
        }
        out
    }

    /// Renders the whole response: the header block followed by the body
    /// decoded as text.
    pub fn to_string(&self) -> (r: String)
        requires
            self.wf(),
        ensures
            exists|es: Seq<(String, String)>|
                {
                    &&& #[trigger] entries_sorted(es)
                    &&& map_of(es) == spec_export_headers(self@)
                    &&& r@ == spec_status_line(self@) + "\r\n"@ + render_entries(es) + "\r\n"@ + (
                    if self@.body.len() > 0 {
                        utf8_lossy_of(self@.body)
                    } else {
                        Seq::<char>::empty()
                    })
                },
    {
        let mut out = self.export_request_header();
        if self.body.len() > 0 {
            let text = from_utf8_lossy_string(self.body.as_slice());
            out.append(text.as_str());
        }
        out
    }

    /// The response as wire bytes: the header block in UTF-8 followed by the
    /// raw body bytes.
    pub fn into_bytes(self) -> (r: Vec<u8>)
        requires
            self.wf(),
        ensures
            exists|es: Seq<(String, String)>|
                {
                    &&& #[trigger] entries_sorted(es)
                    &&& map_of(es) == spec_export_headers(self@)
                    &&& r@ == vstd::utf8::encode_utf8(
                        spec_status_line(self@) + "\r\n"@ + render_entries(es) + "\r\n"@,
                    ) + self@.body
                },
    {
        let header = self.export_request_header();
        let mut bytes = header.as_str().as_bytes_vec();
        let n = self.body.len();
        let mut i: usize = 0;
        while i < n
            invariant
                n == self.body@.len(),
                0 <= i <= n,
                bytes@ =~= vstd::utf8::encode_utf8(header@) + self.body@.take(i as int),
            decreases n - i,
        {
            bytes.push(self.body[i]);
            proof {
                assert(self.body@.take(i + 1) =~= self.body@.take(i as int).push(
                    self.body@[i as int],
                ));
            }
            i = i + 1;
        }
        proof {
            assert(self.body@.take(n as int) =~= self.body@);
        }
        bytes
    }
}

/// The view of a fresh response: HTTP/1.1, status 404 Not Found, no headers,
/// no locals, empty body.
pub open spec fn default_response_view() -> ResponseView {
    ResponseView {
        http_version: "HTTP/1.1"@,
        status_code: StatusCode::NotFound,
        headers: Map::<Seq<char>, Seq<char>>::empty(),
        locals: Map::<Seq<char>, Seq<char>>::empty(),
        body: Seq::<u8>::empty(),
    }
}

impl Default for Response {
    /// A fresh response: HTTP/1.1, status 404 Not Found, no headers, no
    /// locals, empty body.
    fn default() -> (r: Self)
        ensures
            r.wf(),
            r@ == default_response_view(),
    {
        Response {
            http_version: String::from_str("HTTP/1.1"),
            status_code: StatusCode::NotFound,
            headers: StringMap::new(),
            locals: StringMap::new(),
            body: Vec::new(),
        }
    }
}

} // verus!
