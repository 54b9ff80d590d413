use krustie::middleware::gzip::GzipEncoder;
use krustie::json::get_string_from_json;
use krustie::request::body::RequestBody;
use krustie::request::parser::header_parser;
use krustie::request::{PeerAddr, Request};
use krustie::HttpMethod;
use std::io::Read;

fn lines(parts: &[&str]) -> Vec<String> {
    parts.iter().map(|p| p.to_string()).collect()
}

#[test]
fn parse_http_methods() {
    assert_eq!(HttpMethod::new("GET"), Ok(HttpMethod::GET));
    assert_eq!(HttpMethod::new("get"), Ok(HttpMethod::GET));
    assert_eq!(HttpMethod::new("Post"), Ok(HttpMethod::POST));
    assert_eq!(HttpMethod::new("PUT"), Ok(HttpMethod::PUT));
    assert_eq!(HttpMethod::new("PATCH"), Ok(HttpMethod::PATCH));
    assert_eq!(HttpMethod::new("delete"), Ok(HttpMethod::DELETE));
    assert!(HttpMethod::new("HEAD").is_err());
    assert!(HttpMethod::new("").is_err());
}

#[test]
fn parse_request_head() {
    let head = lines(&[
        "GET /hello/world?planet=earth HTTP/1.1",
        "Host: localhost",
        "Accept-Encoding: gzip",
    ]);
    let peer = PeerAddr { ip: 1, port: 4000 };
    let request = Request::parse(&head, &[], peer).unwrap();

    assert_eq!(request.get_method(), &HttpMethod::GET);
    assert_eq!(request.get_path(), "/hello/world?planet=earth");
    assert_eq!(request.get_version(), "HTTP/1.1");
    assert_eq!(
        request.get_path_array(),
        &lines(&["hello", "world?planet=earth"])
    );
    assert_eq!(request.get_header("host").unwrap(), "localhost");
    assert_eq!(request.get_header("accept-encoding").unwrap(), "gzip");
    assert_eq!(request.get_query_param("planet").unwrap().as_str(), "earth");
    assert_eq!(request.get_peer_addr(), peer);
    assert!(matches!(request.get_body(), RequestBody::Empty));
}

#[test]
fn parse_request_with_body() {
    let head = lines(&[
        "POST /submit HTTP/1.1",
        "Content-Type: application/json",
        "Content-Length: 17",
    ]);
    let body = b"{\"krustie\": true}";
    let peer = PeerAddr { ip: 0, port: 0 };
    let request = Request::parse(&head, body, peer).unwrap();
    assert!(matches!(request.get_body(), RequestBody::Json(_)));

    let bad = Request::parse(&head, b"{not json", peer);
    assert!(bad.is_err());
}

#[test]
fn parse_request_rejects_bad_heads() {
    let peer = PeerAddr { ip: 0, port: 0 };
    assert!(Request::parse(&lines(&[]), &[], peer).is_err());
    assert!(Request::parse(&lines(&["GARBAGE / HTTP/1.1"]), &[], peer).is_err());
    assert!(Request::parse(&lines(&["GET /"]), &[], peer).is_err());
    assert!(Request::parse(&lines(&["GET / HTTP/1.0"]), &[], peer).is_err());
    assert!(Request::parse(&lines(&["GET /a?b=1?c=2 HTTP/1.1"]), &[], peer).is_err());
}

#[test]
fn parse_header_lines() {
    assert_eq!(
        header_parser("Content-Type: text/plain"),
        Some(("content-type".to_string(), "text/plain".to_string()))
    );
    assert_eq!(header_parser("no colon here"), None);
    assert_eq!(header_parser("a:b:c"), None);
}

#[test]
fn parse_content_length() {
    let head = lines(&["POST / HTTP/1.1", "Content-Length: 42"]);
    assert_eq!(Request::parse_length(&head), Some(42));
    let head = lines(&["POST / HTTP/1.1", "Content-Length: soon"]);
    assert_eq!(Request::parse_length(&head), Some(0));
    let head = lines(&["POST / HTTP/1.1", "Host: x"]);
    assert_eq!(Request::parse_length(&head), None);
}

#[test]
fn parse_request_bodies() {
    let json = RequestBody::parse(b"{\"a\":1}", "application/json").unwrap();
    assert!(matches!(json, RequestBody::Json(_)));
    assert!(RequestBody::parse(b"{", "application/json").is_err());
    let text = RequestBody::parse(b"hi", "plain/text").unwrap();
    assert!(matches!(text, RequestBody::Text(t) if t == "hi"));
    let binary = RequestBody::parse(b"\x01\x02", "application/octet-stream").unwrap();
    assert!(matches!(binary, RequestBody::Binary(b) if b == vec![1u8, 2u8]));
    let empty = RequestBody::parse(b"", "plain/text").unwrap();
    assert!(matches!(empty, RequestBody::Empty));
}

#[test]
fn request_builder() {
    let mut builder = Request::builder();
    builder.method(HttpMethod::GET);
    builder.path("/echo/hello");
    builder.header("Content-Type", "application/json");
    builder.body(RequestBody::Text("Hello, World!".to_string()));
    let request = builder.build();

    assert_eq!(request.get_method(), &HttpMethod::GET);
    assert_eq!(request.get_path(), "/echo/hello");
    assert_eq!(request.get_header("Content-Type").unwrap(), "application/json");
    assert!(matches!(request.get_body(), RequestBody::Text(t) if t == "Hello, World!"));

    let mut builder = Request::builder();
    builder.request_line(HttpMethod::POST, "/a/b", " HTTP/1.1 ");
    builder.headers(vec![("Server", "Krustie"), ("X-N", "1")]);
    let request = builder.build();
    assert_eq!(request.get_method(), &HttpMethod::POST);
    assert_eq!(request.get_version(), "HTTP/1.1");
    assert_eq!(request.get_header("Server").unwrap(), "Krustie");
    assert_eq!(request.get_header("X-N").unwrap(), "1");
    assert_eq!(request.get_path_array(), &lines(&["a", "b"]));
}

#[test]
fn gzip_encode_round_trip() {
    let body = b"Hello, Hello, Hello, World!".to_vec();
    let compressed = GzipEncoder::encode(&body);
    assert_ne!(compressed, body);
    let mut decoder = flate2::read::GzDecoder::new(compressed.as_slice());
    let mut decompressed = Vec::new();
    decoder.read_to_end(&mut decompressed).unwrap();
    assert_eq!(decompressed, body);
}

#[test]
fn json_text_helpers() {
    let value: serde_json::Value = serde_json::from_str("{\"server\":\"Krustie\"}").unwrap();
    let text = get_string_from_json(value.get("server")).unwrap();
    assert_eq!(text, "Krustie");
    assert_eq!(get_string_from_json(None), None);

    let trimmed = krustie::json::trim_json_string("\"quoted\"".to_string());
    assert_eq!(trimmed, "quoted");
}
