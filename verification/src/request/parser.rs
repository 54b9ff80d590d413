//! Parsing the head lines and body bytes of an HTTP request into a `Request`.
//!
//! The surrounding server reads the connection and splits the raw bytes into
//! head lines and body bytes; everything from there on is parsed here.

use vstd::prelude::*;

use crate::request::body::{body_view, bytes_as_chars, BodyView, RequestBody};
use crate::request::request_line::RequestLine;
use crate::json::is_json_bytes;
use crate::http_method::spec_method_of;
use crate::request::{ParseHttpRequestError, PeerAddr, Request, RequestView};
use crate::string_map::StringMap;
use crate::strutil::{
    find_char, spec_find, spec_lower, spec_parse_usize_or_zero, spec_split, spec_starts_with,
    spec_trim, split_str, str_eq, str_starts_with, lower_str, parse_usize_or_zero, substring,
    trim_str,
};

verus! {

/// The key/value pair a header line yields: the text around the single colon,
/// trimmed, with the name lower-cased. Lines without exactly one colon are
/// dropped.
pub open spec fn spec_header_kv(line: Seq<char>) -> Option<(Seq<char>, Seq<char>)> {
    let ps = spec_split(line, ':');
    if ps.len() == 2 {
        Some((spec_lower(spec_trim(ps[0])), spec_trim(ps[1])))
    } else {
        None
    }
}

/// Folds header lines into a map, later lines winning.
pub open spec fn insert_header_lines(m: Map<Seq<char>, Seq<char>>, lines: Seq<Seq<char>>) -> Map<
    Seq<char>,
    Seq<char>,
>
    decreases lines.len(),
{
    if lines.len() == 0 {
        m
    } else {
        let m2 = match spec_header_kv(lines[0]) {
            Some(kv) => m.insert(kv.0, kv.1),
            None => m,
        };
        insert_header_lines(m2, lines.drop_first())
    }
}

/// The lines of the head that are read as headers: everything after the
/// request line, up to 100 lines.
pub open spec fn spec_header_lines(lines: Seq<Seq<char>>) -> Seq<Seq<char>> {
    if lines.len() <= 1 {
        Seq::empty()
    } else if lines.len() - 1 > 100 {
        lines.drop_first().take(100)
    } else {
        lines.drop_first()
    }
}

/// The header map of a request head.
pub open spec fn spec_headers_map(lines: Seq<Seq<char>>) -> Map<Seq<char>, Seq<char>> {
    insert_header_lines(Map::empty(), spec_header_lines(lines))
}

/// Folds `k=v` pieces into a map, later pieces winning; pieces without `=`
/// are dropped.
pub open spec fn insert_kvps(m: Map<Seq<char>, Seq<char>>, kvps: Seq<Seq<char>>) -> Map<
    Seq<char>,
    Seq<char>,
>
    decreases kvps.len(),
{
    if kvps.len() == 0 {
        m
    } else {
        let m2 = match spec_find(kvps[0], '=') {
            Some(i) => m.insert(kvps[0].take(i), kvps[0].skip(i + 1)),
            None => m,
        };
        insert_kvps(m2, kvps.drop_first())
    }
}

/// The query parameters carried by the last path segment: the `k=v` pairs
/// after its `?`, when it has exactly one.
pub open spec fn spec_queries_of(segs: Seq<Seq<char>>) -> Map<Seq<char>, Seq<char>> {
    if segs.len() == 0 {
        Map::empty()
    } else {
        let pieces = spec_split(segs.last(), '?');
        if pieces.len() == 2 {
            insert_kvps(Map::empty(), spec_split(pieces[1], '&'))
        } else {
            Map::empty()
        }
    }
}

/// The content length announced by the head lines: the digits after the colon
/// of the first line starting with `Content-Length`, or zero when they do not
/// parse.
pub open spec fn spec_content_length(lines: Seq<Seq<char>>) -> Option<nat>
    decreases lines.len(),
{
    if lines.len() == 0 {
        None
    } else if spec_starts_with(lines[0], "Content-Length"@) {
        match spec_find(lines[0], ':') {
            Some(i) => Some(spec_parse_usize_or_zero(spec_trim(lines[0].skip(i + 1)))),
            None => None,
        }
    } else {
        spec_content_length(lines.drop_first())
    }
}

/// The announced content length, taking absence as zero.
pub open spec fn spec_content_length_or_zero(lines: Seq<Seq<char>>) -> nat {
    match spec_content_length(lines) {
        Some(l) => l,
        None => 0,
    }
}

/// Whether a non-empty body parses under the given headers: a content type
/// must be present, and a JSON content type demands valid JSON bytes.
pub open spec fn spec_body_ok(body: Seq<u8>, headers: Map<Seq<char>, Seq<char>>) -> bool {
    &&& body.len() > 0
    &&& headers.contains_key("content-type"@)
    &&& (headers["content-type"@] == "application/json"@ ==> is_json_bytes(body))
}

/// The body value a non-empty body parses to, by content type.
pub open spec fn spec_body_matches(body: Seq<u8>, ct: Seq<char>, b: BodyView) -> bool {
    if ct == "application/json"@ {
        b is Json
    } else if ct == "plain/text"@ {
        b == BodyView::Text(bytes_as_chars(body))
    } else {
        b == BodyView::Binary(body)
    }
}

/// Whether a head and body parse as a request: the request line has three
/// words with a known method and an `HTTP/` version word equal to `HTTP/1.1`
/// after trimming, the last path segment has at most one `?`, and an
/// announced body parses.
pub open spec fn spec_parse_ok(lines: Seq<Seq<char>>, body: Seq<u8>) -> bool {
    &&& lines.len() > 0
    &&& ({
        let words = spec_split(lines[0], ' ');
        &&& words.len() == 3
        &&& spec_method_of(words[0]) is Some
        &&& spec_starts_with(words[2], "HTTP/"@)
        &&& spec_method_of(spec_trim(words[0])) is Some
        &&& spec_trim(words[2]) == "HTTP/1.1"@
        &&& ({
            let segs = crate::request::request_line::spec_uri_segments(spec_trim(words[1]));
            segs.len() == 0 || spec_split(segs.last(), '?').len() <= 2
        })
        &&& (spec_content_length_or_zero(lines) > 0 ==> spec_body_ok(body, spec_headers_map(lines)))
    })
}

/// Parses the `k=v` pairs of a query string.
fn parse_kvps(q: &str) -> (r: StringMap)
    ensures
        r.wf(),
        r@ == insert_kvps(Map::empty(), spec_split(q@, '&')),
{
    let kvps = split_str(q, '&');
    let ghost all = kvps.deep_view();
    let mut queries = StringMap::new();
    let n = kvps.len();
    let mut i: usize = 0;
    proof {
        assert(all.skip(0) =~= all);
    }
    while i < n
        invariant
            queries.wf(),
            n == all.len(),
            kvps.deep_view() == all,
            kvps@.len() == n,
            0 <= i <= n,
            insert_kvps(Map::empty(), all) == insert_kvps(queries@, all.skip(i as int)),
        decreases n - i,
    {
        proof {
            assert(all.skip(i as int).drop_first() =~= all.skip(i + 1));
            assert(all.skip(i as int)[0] == all[i as int]);
            assert(all[i as int] == kvps@[i as int]@);
        }
        let kvp = &kvps[i];
        let len = kvp.as_str().unicode_len();
        match find_char(kvp.as_str(), '=') {
            Some(eq_pos) => {
                let key = substring(kvp.as_str(), 0, eq_pos);
                let value = substring(kvp.as_str(), eq_pos + 1, len);
                proof {
                    assert(key@ =~= all[i as int].take(eq_pos as int));
                    assert(value@ =~= all[i as int].skip(eq_pos + 1));
                }
                queries.insert(key.as_str(), value.as_str());
            },
            None => {},
        }
        i = i + 1;
    }
    proof {
        assert(all.skip(n as int) =~= Seq::<Seq<char>>::empty());
    }
    queries
}

/// Parses the query parameters attached to the last path segment, yielding an
/// empty map when there is no single `?`.
pub(crate) fn parse_queries(path_array: &Vec<String>) -> (r: StringMap)
    ensures
        r.wf(),
        r@ == spec_queries_of(path_array.deep_view()),
{
    let n = path_array.len();
    if n == 0 {
        return StringMap::new();
    }
    let last = &path_array[n - 1];
    proof {
        assert(path_array.deep_view().last() == path_array@[n - 1]@);
    }
    let pieces = split_str(last.as_str(), '?');
    if pieces.len() != 2 {
        return StringMap::new();
    }
    proof {
        assert(pieces.deep_view()[1] == pieces@[1]@);
    }
    parse_kvps(pieces[1].as_str())
}

/// Parses one header line into its lower-cased name and trimmed value;
/// exactly the lines with a single colon yield a pair.
pub fn header_parser(line: &str) -> (r: Option<(String, String)>)
    ensures
        match r {
            Some(kv) => spec_header_kv(line@) == Some((kv.0@, kv.1@)),
            None => spec_header_kv(line@) is None,
        },
{
    let pieces = split_str(line, ':');
    if pieces.len() != 2 {
        return None;
    }
    proof {
        assert(pieces.deep_view()[0] == pieces@[0]@);
        assert(pieces.deep_view()[1] == pieces@[1]@);
    }
    let key_trimmed = trim_str(pieces[0].as_str());
    let key = lower_str(key_trimmed.as_str());
    let value = trim_str(pieces[1].as_str());
    Some((key, value))
}

/// Collects the header lines after the request line, at most 100 of them,
/// into the header map.
fn collect_headers(head: &Vec<String>) -> (r: StringMap)
    ensures
        r.wf(),
        r@ == spec_headers_map(head.deep_view()),
{
    let ghost hl = spec_header_lines(head.deep_view());
    let mut headers = StringMap::new();
    let n = head.len();
    let limit: usize = if n >= 1 && n - 1 > 100 {
        101
    } else {
        n
    };
    proof {
        assert(hl.len() == if head.deep_view().len() <= 1 {
            0int
        } else if head.deep_view().len() - 1 > 100 {
            100int
        } else {
            head.deep_view().len() - 1
        });
        assert(forall|j: int| 0 <= j < hl.len() ==> hl[j] == head.deep_view()[j + 1]);
        assert(hl.skip(0) =~= hl);
    }
    let mut i: usize = 1;
    if limit == 0 {
        proof {
            assert(hl =~= Seq::<Seq<char>>::empty());
        }
        return headers;
    }
    while i < limit
        invariant
            headers.wf(),
            1 <= i <= limit,
            limit <= head@.len(),
            limit == if head@.len() >= 1 && head@.len() - 1 > 100 {
                101int
            } else {
                head@.len() as int
            },
            hl == spec_header_lines(head.deep_view()),
            hl.len() == limit - 1,
            forall|j: int| 0 <= j < hl.len() ==> hl[j] == head.deep_view()[j + 1],
            spec_headers_map(head.deep_view()) == insert_header_lines(headers@, hl.skip(i - 1)),
        decreases limit - i,
    {
        proof {
            assert(hl.skip(i - 1).drop_first() =~= hl.skip(i as int));
            assert(hl.skip(i - 1)[0] == hl[i - 1]);
            assert(hl[i - 1] == head.deep_view()[i as int]);
            assert(head.deep_view()[i as int] == head@[i as int]@);
        }
        match header_parser(head[i].as_str()) {
            Some(kv) => {
                headers.insert(kv.0.as_str(), kv.1.as_str());
            },
            None => {},
        }
        i = i + 1;
    }
    proof {
        assert(hl.skip(limit - 1) =~= Seq::<Seq<char>>::empty());
    }
    headers
}

impl Request {
    /// Finds the announced content length among the head lines: the first
    /// line starting with `Content-Length`, its text after the colon parsed
    /// as a number (zero when it does not parse).
    pub fn parse_length(head: &Vec<String>) -> (r: Option<usize>)
        ensures
            match r {
                Some(l) => spec_content_length(head.deep_view()) == Some(l as nat),
                None => spec_content_length(head.deep_view()) is None,
            },
    {
        let ghost lines = head.deep_view();
        let n = head.len();
        let mut i: usize = 0;
        proof {
            assert(lines.skip(0) =~= lines);
        }
        while i < n
            invariant
                n == lines.len(),
                head.deep_view() == lines,
                head@.len() == n,
                0 <= i <= n,
                spec_content_length(lines) == spec_content_length(lines.skip(i as int)),
            decreases n - i,
        {
            proof {
                assert(lines.skip(i as int).drop_first() =~= lines.skip(i + 1));
                assert(lines.skip(i as int)[0] == lines[i as int]);
                assert(lines[i as int] == head@[i as int]@);
            }
            let line = &head[i];
            if str_starts_with(line.as_str(), "Content-Length") {
                let len = line.as_str().unicode_len();
                match find_char(line.as_str(), ':') {
                    Some(idx) => {
                        let tail = substring(line.as_str(), idx + 1, len);
                        proof {
                            assert(tail@ =~= lines[i as int].skip(idx + 1));
                        }
                        let trimmed = trim_str(tail.as_str());
                        return Some(parse_usize_or_zero(trimmed.as_str()));
                    },
                    None => {
                        return None;
                    },
                }
            }
            i = i + 1;
        }
        proof {
            assert(lines.skip(n as int) =~= Seq::<Seq<char>>::empty());
        }
        None
    }

    /// Parses a non-empty body under the collected headers; errs on an empty
    /// body, a missing content type, or invalid JSON under a JSON content
    /// type.
    pub fn parse_body(body: &[u8], headers: &StringMap) -> (r: Result<
        RequestBody,
        ParseHttpRequestError,
    >)
        requires
            headers.wf(),
        ensures
            r matches Ok(b) ==> spec_body_ok(body@, headers@) && spec_body_matches(
                body@,
                headers@["content-type"@],
                body_view(&b),
            ),
            r is Err <==> !spec_body_ok(body@, headers@),
    {
        if body.len() == 0 {
            return Err(ParseHttpRequestError);
        }
        match headers.get("content-type") {
            Some(content_type) => {
                let ct = content_type.clone();
                RequestBody::parse(body, ct.as_str())
            },
            None => Err(ParseHttpRequestError),
        }
    }

    /// Parses a request from its head lines and body bytes; exactly the heads
    /// accepted by `spec_parse_ok` yield a request, whose parts are the
    /// parsed method, URI, version, path segments, headers, query parameters
    /// and body.
    pub fn parse(head: &Vec<String>, body: &[u8], peer_addr: PeerAddr) -> (r: Result<
        Request,
        ParseHttpRequestError,
    >)
        ensures
            (r is Ok) == spec_parse_ok(head.deep_view(), body@),
            r matches Ok(req) ==> ({
                let words = spec_split(head.deep_view()[0], ' ');
                let uri = spec_trim(words[1]);
                let segs = crate::request::request_line::spec_uri_segments(uri);
                let cl = spec_content_length_or_zero(head.deep_view());
                &&& Some(req@.method) == spec_method_of(spec_trim(words[0]))
                &&& req@.uri == uri
                &&& req@.version == "HTTP/1.1"@
                &&& req@.path_array == segs
                &&& req@.headers == spec_headers_map(head.deep_view())
                &&& req@.queries == spec_queries_of(segs)
                &&& req@.params == Map::<Seq<char>, Seq<char>>::empty()
                &&& req@.peer_addr == peer_addr
                &&& (cl == 0 ==> req@.body is Empty)
                &&& (cl > 0 ==> spec_body_matches(
                    body@,
                    spec_headers_map(head.deep_view())["content-type"@],
                    req@.body,
                ))
            }),
    {
        if head.len() == 0 {
            return Err(ParseHttpRequestError);
        }
        proof {
            assert(head.deep_view()[0] == head@[0]@);
        }
        let request_line = match RequestLine::parse(head[0].as_str()) {
            Ok(rl) => rl,
            Err(_) => {
                return Err(ParseHttpRequestError);
            },
        };
        if !str_eq(request_line.get_version().as_str(), "HTTP/1.1") {
            return Err(ParseHttpRequestError);
        }
        let mut queries = StringMap::new();
        let pa_len = request_line.get_path_array().len();
        if pa_len > 0 {
            proof {
                assert(request_line.path_array.deep_view().last()
                    == request_line.path_array@[pa_len - 1]@);
            }
            let pieces = split_str(request_line.get_path_array()[pa_len - 1].as_str(), '?');
            if pieces.len() > 2 {
                return Err(ParseHttpRequestError);
            }
            if pieces.len() == 2 {
                proof {
                    assert(pieces.deep_view()[1] == pieces@[1]@);
                }
                queries = parse_kvps(pieces[1].as_str());
            }
        }
        let headers = collect_headers(head);
        let content_length: usize = match Self::parse_length(head) {
            Some(l) => l,
            None => 0,
        };
        if content_length == 0 {
            return Ok(
                Request::from_parts(
                    request_line,
                    headers,
                    queries,
                    StringMap::new(),
                    RequestBody::Empty,
                    peer_addr,
                ),
            );
        }
        let parsed_body = match Self::parse_body(body, &headers) {
            Ok(b) => b,
            Err(e) => {
                return Err(e);
            },
        };
        Ok(Request::from_parts(request_line, headers, queries, StringMap::new(), parsed_body, peer_addr))
    }
}

} // verus!
