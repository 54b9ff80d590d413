//! A middleware for compressing response bodies using gzip.

use vstd::prelude::*;

use crate::request::{Request, RequestView};
use crate::response::{Response, ResponseView};
use crate::server::route_handler::HandlerResult;
use crate::strutil::{spec_split, spec_trim, split_str, str_eq, trim_str};
use std::io::Write;

verus! {

/// The gzip stream flate2 produces for the given bytes at the default
/// compression level; it depends on the bytes alone (flate2 writes a fixed
/// header with no timestamp and an unknown-OS marker, for reproducible
/// streams).
pub uninterp spec fn gzip_of(b: Seq<u8>) -> Seq<u8>;

/// Relies on flate2's `GzEncoder::new`, `write_all` and `finish` writing into
/// a `Vec<u8>`: the result is the gzip stream of the input at the default
/// level. Writing into a `Vec` cannot fail, so `finish` cannot either and the
/// fallback arms are never taken.
#[verifier::external_body]
fn gzip_compress(data: &[u8]) -> (r: Vec<u8>)
    ensures
        r@ == gzip_of(data@),
{
    let mut encoder = flate2::write::GzEncoder::new(Vec::new(), flate2::Compression::default());
    if encoder.write_all(data).is_err() {
        return Vec::new();
    }
    match encoder.finish() {
        Ok(compressed_bytes) => compressed_bytes,
        Err(_) => Vec::new(),
    }
}

/// Whether an `Accept-Encoding` value admits gzip: one of its comma-separated
/// pieces, trimmed, is exactly `gzip`.
pub open spec fn spec_accepts_gzip(v: Seq<char>) -> bool {
    exists|i: int|
        0 <= i < spec_split(v, ',').len() && spec_trim(#[trigger] spec_split(v, ',')[i]) == "gzip"@
}

/// Tests whether an `Accept-Encoding` value admits gzip.
fn accepts_gzip(value: &str) -> (r: bool)
    ensures
        r == spec_accepts_gzip(value@),
{
    let pieces = split_str(value, ',');
    let n = pieces.len();
    let mut i: usize = 0;
    while i < n
        invariant
            pieces.deep_view() == spec_split(value@, ','),
            n == pieces@.len(),
            n == spec_split(value@, ',').len(),
            0 <= i <= n,
            forall|j: int|
                0 <= j < i ==> spec_trim(#[trigger] spec_split(value@, ',')[j]) != "gzip"@,
        decreases n - i,
    {
        proof {
            assert(spec_split(value@, ',')[i as int] == pieces@[i as int]@);
        }
        let piece = trim_str(pieces[i].as_str());
        if str_eq(piece.as_str(), "gzip") {
            return true;
        }
        i = i + 1;
    }
    false
}

/// A middleware for compressing the response body using gzip, when the
/// request accepts the encoding and the response has a body.
#[derive(Debug, Clone, Copy)]
pub struct GzipEncoder;

/// What the gzip middleware does to a response: when the response has a body
/// and the request admits gzip, the body is compressed and the
/// `Content-Encoding` header set; otherwise nothing changes.
pub open spec fn gzip_step(req: RequestView, res: ResponseView) -> ResponseView {
    if res.body.len() > 0 && req.headers.contains_key("accept-encoding"@) && spec_accepts_gzip(
        req.headers["accept-encoding"@],
    ) {
        ResponseView {
            headers: res.headers.insert("Content-Encoding"@, "gzip"@),
            body: gzip_of(res.body),
            ..res
        }
    } else {
        res
    }
}

impl GzipEncoder {
    /// Compresses bytes with gzip at the default level.
    pub fn encode(body: &Vec<u8>) -> (r: Vec<u8>)
        ensures
            r@ == gzip_of(body@),
    {
        gzip_compress(body.as_slice())
    }

    /// Compresses the response body when the request admits gzip; always
    /// continues the chain.
    pub fn middleware(&self, request: &Request, response: &mut Response) -> (r: HandlerResult)
        requires
            request.wf(),
            old(response).wf(),
        ensures
            final(response).wf(),
            final(response)@ == gzip_step(request@, old(response)@),
            r is Next,
    {
        if response.get_body().len() == 0 {
            return HandlerResult::Next;
        }
        match request.get_header("accept-encoding") {
            Some(str_encodings) => {
                let enc = str_encodings.to_owned();
                if !accepts_gzip(enc.as_str()) {
                    return HandlerResult::Next;
                }
                let compressed = Self::encode(response.get_body());
                response.set_header("Content-Encoding", "gzip");
                response.set_raw_body(compressed);
                HandlerResult::Next
            },
            None => HandlerResult::Next,
        }
    }
}

} // verus!
