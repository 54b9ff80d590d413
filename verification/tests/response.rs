use krustie::response::content_type::ContentType;
use krustie::{Response, StatusCode};

#[test]
fn serialize_response() {
    let mut default_response = Response::default();
    let mut headers: Vec<(String, String)> = Vec::new();

    headers.push((String::from("Hello"), String::from("World")));
    headers.push((String::from("Meaning of the life"), String::from("42")));

    default_response.status(StatusCode::Okay);
    default_response.set_header("Server", "Krustie");
    default_response.headers(headers);
    let value: serde_json::Value = serde_json::from_str("{\"message\":\"Hello, World!\"}").unwrap();
    default_response.body_json(value);

    assert_eq!(
        "HTTP/1.1 200 OK\r\nContent-Length: 27\r\nContent-Type: application/json\r\nHello: World\r\nMeaning of the life: 42\r\nServer: Krustie\r\n\r\n{\"message\":\"Hello, World!\"}",
        default_response.to_string()
    );
}

#[test]
fn response_defaults_to_not_found() {
    let response = Response::default();
    assert_eq!(response.get_status(), StatusCode::NotFound);
    assert!(response.is_error());
    assert!(response.get_body().is_empty());
}

#[test]
fn response_body_and_headers() {
    let mut response = Response::default();
    response.status(StatusCode::Okay);
    assert!(!response.is_error());
    response.body(b"<p>hi</p>".to_vec(), ContentType::Html);
    assert_eq!(response.get_header("Content-Type").unwrap().as_str(), "text/html");
    assert_eq!(response.get_body(), &b"<p>hi</p>".to_vec());

    response.set_body(b"fresh".to_vec()).unwrap();
    assert_eq!(response.get_body(), &b"fresh".to_vec());

    let mut empty = Response::default();
    assert_eq!(empty.set_body(b"x".to_vec()), Err("Request has no body.".to_string()));
}

#[test]
fn response_locals() {
    let mut response = Response::default();
    assert!(response.get_local("user").is_none());
    response.set_local("user", "123");
    assert_eq!(response.get_local("user").unwrap().as_str(), "123");
}

#[test]
fn response_into_bytes() {
    let mut response = Response::default();
    response.status(StatusCode::Okay);
    response.body_text("ok");
    let bytes = response.into_bytes();
    let expected =
        b"HTTP/1.1 200 OK\r\nContent-Length: 2\r\nContent-Type: text/plain\r\n\r\nok".to_vec();
    assert_eq!(bytes, expected);
}

#[test]
fn status_codes_round_trip() {
    assert_eq!(StatusCode::from_code(200), Ok(StatusCode::Okay));
    assert_eq!(StatusCode::from_code(418), Ok(StatusCode::IAmATeapot));
    assert!(StatusCode::from_code(299).is_err());
    assert_eq!(StatusCode::Okay.code(), 200);
    assert_eq!(StatusCode::IAmATeapot.code(), 418);
    assert_eq!(StatusCode::Okay.to_string(), "200");
    assert_eq!(StatusCode::Okay.get_message(), "OK");
    assert_eq!(StatusCode::InternalServerError.get_message(), "Internal Server Error");
    assert!(StatusCode::InternalServerError.code() >= 400);
}

#[test]
fn content_types() {
    assert_eq!(ContentType::from_extension("html"), Ok(ContentType::Html));
    assert_eq!(ContentType::from_extension("json"), Ok(ContentType::Json));
    assert_eq!(ContentType::Html.to_string(), "text/html");
    assert_eq!(ContentType::Json.to_string(), "application/json");
    assert_eq!(
        ContentType::from_extension("nope"),
        Err("Unknown content type for extension: nope".to_string())
    );
}

#[test]
fn response_remove_header() {
    let mut response = Response::default();
    response.set_header("X-Powered-By", "something");
    response.remove_header("X-Powered-By");
    assert!(response.get_header("X-Powered-By").is_none());
    response.remove_header("Never-Set");
    assert!(response.get_header("Never-Set").is_none());
}
