use krustie::middleware::rate_limiter::RateLimiter;
use krustie::middleware::Middleware;
use std::io::Read;
use krustie::router::endpoint::{Controller, Endpoint};
use krustie::router::RouteError;
use krustie::server::request_handler::RequestHandler;
use krustie::{HttpMethod, Request, Response, Router, Server, StatusCode};

#[derive(Debug, PartialEq, Eq, Clone, Copy)]
enum TestController {
    EchoParam,
    EchoQuery,
    EchoParamAndQuery,
    Hello,
    ActiveUsers,
    UserById,
    TeamMember,
    CreateUser,
    ListUsers,
    ItemById,
    CountCalls,
}

impl Controller for TestController {
    fn call(&self, req: &Request, res: &mut Response) {
        match self {
            TestController::EchoParam => {
                res.status(StatusCode::Okay);
                res.body_text(req.get_param("param").unwrap());
            }
            TestController::EchoQuery => {
                res.status(StatusCode::Okay);
                res.body_text(req.get_query_param("query").unwrap());
            }
            TestController::EchoParamAndQuery => {
                res.status(StatusCode::Okay);
                res.body_text(
                    format!(
                        "{} {}",
                        req.get_param("param").unwrap(),
                        req.get_query_param("query").unwrap()
                    )
                    .as_str(),
                );
            }
            TestController::Hello => {
                res.status(StatusCode::Okay);
                res.body_text("hello world");
            }
            TestController::ActiveUsers => {
                res.status(StatusCode::Okay);
                res.body_text("active");
            }
            TestController::UserById => {
                res.status(StatusCode::Okay);
                res.body_text(req.get_param("id").unwrap());
            }
            TestController::TeamMember => {
                res.status(StatusCode::Okay);
                res.body_text(
                    format!(
                        "{}/{}",
                        req.get_param("teamId").unwrap(),
                        req.get_param("memberId").unwrap()
                    )
                    .as_str(),
                );
            }
            TestController::CreateUser => {
                res.status(StatusCode::Created);
                res.body_text("created");
            }
            TestController::ListUsers => {
                res.status(StatusCode::Okay);
                res.body_text("list");
            }
            TestController::ItemById => {
                res.status(StatusCode::Okay);
                res.body_text(req.get_param("id").unwrap());
            }
            TestController::CountCalls => {
                let count = match res.get_local("calls") {
                    Some(v) => v.parse::<u32>().unwrap() + 1,
                    None => 1,
                };
                res.set_local("calls", count.to_string().as_str());
                res.status(StatusCode::Okay);
                res.body_text(req.get_param("id").unwrap());
            }
        }
    }
}

fn get_request(path: &str) -> Request {
    let mut builder = Request::builder();
    builder.method(HttpMethod::GET);
    builder.path(path);
    builder.build()
}

#[test]
fn router_parameters() {
    let mut server = Server::create();
    let mut router = Router::new();

    router.get("/echo/:param", TestController::EchoParam).unwrap();

    server.use_handler(RequestHandler::Router(router));

    let mut expected_response = Response::default();
    expected_response.status(StatusCode::Okay);
    expected_response.body_text("hello");

    let request = get_request("/echo/hello");

    let response = server.mock_request(request);

    assert!(Response::assert_eq(&expected_response, &response));
}

#[test]
fn query_parameters() {
    let mut server = Server::create();
    let mut router = Router::new();

    router.get("/echo", TestController::EchoQuery).unwrap();

    server.use_handler(RequestHandler::Router(router));

    let mut expected_response = Response::default();
    expected_response.status(StatusCode::Okay);
    expected_response.body_text("world");

    let request = get_request("/echo?query=world");

    let response = server.mock_request(request);

    assert!(Response::assert_eq(&expected_response, &response));
}

#[test]
fn router_and_query_parameters() {
    let mut server = Server::create();
    let mut router = Router::new();

    router.get("/echo/:param", TestController::EchoParamAndQuery).unwrap();

    server.use_handler(RequestHandler::Router(router));

    let mut expected_response = Response::default();
    expected_response.status(StatusCode::Okay);
    expected_response.body_text("hello world");

    let request = get_request("/echo/hello?query=world");

    let response = server.mock_request(request);

    assert!(Response::assert_eq(&expected_response, &response));
}

fn segments(parts: &[&str]) -> Vec<String> {
    parts.iter().map(|p| p.to_string()).collect()
}

#[test]
fn registration_lookup_round_trip() {
    let mut router = Router::new();
    router.get("/users", TestController::ListUsers).unwrap();
    router.get("/users/active", TestController::ActiveUsers).unwrap();
    router.post("/users", TestController::CreateUser).unwrap();
    router.get("/teams/alpha/members", TestController::Hello).unwrap();

    let cases: Vec<(Vec<String>, HttpMethod, TestController)> = vec![
        (segments(&["users"]), HttpMethod::GET, TestController::ListUsers),
        (segments(&["users", "active"]), HttpMethod::GET, TestController::ActiveUsers),
        (segments(&["users"]), HttpMethod::POST, TestController::CreateUser),
        (segments(&["teams", "alpha", "members"]), HttpMethod::GET, TestController::Hello),
    ];
    for (path, method, controller) in cases {
        let (endpoint, params) = router.route_handler(&path, &method).unwrap();
        assert_eq!(endpoint.get_controller(), &controller);
        assert!(endpoint.is_method(&method));
        assert_eq!(params.len(), 0);
    }
}

#[test]
fn literal_precedence() {
    let mut router = Router::new();
    router.get("/users/active", TestController::ActiveUsers).unwrap();
    router.get("/users/:id", TestController::UserById).unwrap();

    let (endpoint, params) = router
        .route_handler(&segments(&["users", "active"]), &HttpMethod::GET)
        .unwrap();
    assert_eq!(endpoint.get_controller(), &TestController::ActiveUsers);
    assert_eq!(params.len(), 0);

    let (endpoint, params) = router
        .route_handler(&segments(&["users", "42"]), &HttpMethod::GET)
        .unwrap();
    assert_eq!(endpoint.get_controller(), &TestController::UserById);
    assert_eq!(params.get("id").unwrap().as_str(), "42");
    assert_eq!(params.len(), 1);
}

#[test]
fn multi_parameter_extraction() {
    let mut router = Router::new();
    router
        .get("/teams/:teamId/members/:memberId", TestController::TeamMember)
        .unwrap();

    let (endpoint, params) = router
        .route_handler(&segments(&["teams", "7", "members", "99"]), &HttpMethod::GET)
        .unwrap();
    assert_eq!(endpoint.get_controller(), &TestController::TeamMember);
    assert_eq!(params.get("teamId").unwrap().as_str(), "7");
    assert_eq!(params.get("memberId").unwrap().as_str(), "99");
    assert_eq!(params.len(), 2);
}

#[test]
fn method_specificity() {
    let mut router = Router::new();
    router.get("/users", TestController::ListUsers).unwrap();
    router.post("/users", TestController::CreateUser).unwrap();

    let (endpoint, _) = router
        .route_handler(&segments(&["users"]), &HttpMethod::GET)
        .unwrap();
    assert_eq!(endpoint.get_controller(), &TestController::ListUsers);

    let (endpoint, _) = router
        .route_handler(&segments(&["users"]), &HttpMethod::POST)
        .unwrap();
    assert_eq!(endpoint.get_controller(), &TestController::CreateUser);

    assert!(router
        .route_handler(&segments(&["users"]), &HttpMethod::DELETE)
        .is_none());
}

#[test]
fn query_string_isolation() {
    let mut router = Router::new();
    router.get("/search", TestController::Hello).unwrap();

    let (endpoint, params) = router
        .route_handler(&segments(&["search?q=rust"]), &HttpMethod::GET)
        .unwrap();
    assert_eq!(endpoint.get_controller(), &TestController::Hello);
    assert_eq!(params.len(), 0);

    assert!(router
        .route_handler(&segments(&["search?q=rust", "deeper"]), &HttpMethod::GET)
        .is_none());
}

#[test]
fn short_circuit_invariant() {
    let mut server = Server::create();
    let mut router = Router::new();
    router.get("/ping", TestController::Hello).unwrap();
    router.use_middleware(Middleware::SetHeader(
        "X-Before".to_string(),
        "yes".to_string(),
    ));
    // A limiter with zero tokens blocks every request and ends the chain.
    router.use_middleware(Middleware::RateLimit(RateLimiter::new(0, 1_000_000)));
    router.use_middleware(Middleware::SetHeader(
        "X-After".to_string(),
        "yes".to_string(),
    ));
    server.use_handler(RequestHandler::Router(router));

    let response = server.mock_request(get_request("/ping"));

    assert_eq!(response.get_status(), StatusCode::TooManyRequests);
    assert_eq!(response.get_header("X-Before").unwrap().as_str(), "yes");
    assert!(response.get_header("X-After").is_none());
    assert!(response.get_body().is_empty());
}

#[test]
fn idempotent_structural_lookup() {
    let mut router = Router::new();
    router.get("/items/:id", TestController::ItemById).unwrap();
    router.get("/items", TestController::ListUsers).unwrap();

    let path = segments(&["items", "abc"]);
    let (e1, p1) = router.route_handler(&path, &HttpMethod::GET).unwrap();
    let c1 = *e1.get_controller();
    let b1 = p1.get("id").unwrap().clone();
    let (e2, p2) = router.route_handler(&path, &HttpMethod::GET).unwrap();
    assert_eq!(&c1, e2.get_controller());
    assert_eq!(&b1, p2.get("id").unwrap());
    assert_eq!(p1.len(), p2.len());
}

#[test]
fn item_dispatch_scenario() {
    let mut server = Server::create();
    let mut router = Router::new();
    router.get("/", TestController::Hello).unwrap();
    router.get("/items/:id", TestController::CountCalls).unwrap();
    server.use_handler(RequestHandler::Router(router));

    let response = server.mock_request(get_request("/items/abc?x=1"));

    assert_eq!(response.get_status(), StatusCode::Okay);
    assert_eq!(response.get_body(), "abc".as_bytes());
    assert_eq!(response.get_local("calls").unwrap().as_str(), "1");
}

#[test]
fn registration_errors() {
    let mut router = Router::new();
    router.get("/users", TestController::ListUsers).unwrap();

    match router.get("/users", TestController::Hello) {
        Err(RouteError::DuplicateRoute) => {}
        other => panic!("expected a duplicate route, got {:?}", other),
    }

    router.get("/users/:id", TestController::UserById).unwrap();
    match router.get("/users/:userId", TestController::UserById) {
        Err(RouteError::ConflictingParameterName) => {}
        other => panic!("expected a parameter conflict, got {:?}", other),
    }

    match router.get("/bad segment", TestController::Hello) {
        Err(RouteError::InvalidPath(e)) => {
            assert_eq!(e.0, "bad segment");
        }
        other => panic!("expected an invalid path, got {:?}", other),
    }
}

#[test]
fn endpoint_registration() {
    let mut router = Router::new();
    let endpoint = Endpoint::new(HttpMethod::PUT, TestController::Hello);
    router.use_endpoint("/things", endpoint).unwrap();
    let endpoint = Endpoint::new_with_middleware(
        HttpMethod::GET,
        TestController::Hello,
        vec![Middleware::SetHeader("X-Kind".to_string(), "endpoint".to_string())],
    );
    router.use_endpoint("/things", endpoint).unwrap();

    let mut server = Server::create();
    server.use_handler(RequestHandler::Router(router));
    let response = server.mock_request(get_request("/things"));
    assert_eq!(response.get_status(), StatusCode::Okay);
    assert_eq!(response.get_header("X-Kind").unwrap().as_str(), "endpoint");
}

#[test]
fn mounted_router() {
    let mut comments = Router::new();
    comments.post("/", TestController::CreateUser).unwrap();
    let mut user = Router::new();
    user.use_router("/comments", comments).unwrap();
    let mut main = Router::new();
    main.use_router("/user", user).unwrap();

    let (endpoint, _) = main
        .route_handler(&segments(&["user", "comments"]), &HttpMethod::POST)
        .unwrap();
    assert_eq!(endpoint.get_controller(), &TestController::CreateUser);

    let mut other = Router::new();
    other.get("/", TestController::Hello).unwrap();
    match main.use_router("/user", other) {
        Err(RouteError::DuplicateRoute) => {}
        other => panic!("expected a duplicate route, got {:?}", other),
    }
}

#[test]
fn rate_limiter_tokens() {
    let mut limiter = RateLimiter::new(2, 1000);
    let ip: u128 = 7;
    assert!(limiter.check(ip, 0));
    assert!(limiter.check(ip, 1));
    assert!(!limiter.check(ip, 2));
    assert!(limiter.check(ip, 1000));
    // another address has its own bucket
    assert!(limiter.check(8, 2));
}

#[test]
fn global_tier_short_circuit() {
    // A standalone rate limiter before the router blocks the request, so the
    // router (and its controller) never runs.
    let mut server = Server::create();
    server.use_handler(RequestHandler::Middleware(Middleware::RateLimit(RateLimiter::new(
        0, 1_000_000,
    ))));
    let mut router = Router::new();
    router.get("/ping", TestController::Hello).unwrap();
    server.use_handler(RequestHandler::Router(router));

    let response = server.mock_request(get_request("/ping"));
    assert_eq!(response.get_status(), StatusCode::TooManyRequests);
    assert!(response.get_body().is_empty());
}

#[test]
fn unmatched_lets_later_handlers_answer() {
    // The router finds no route, sets Not Found and returns Next, so a later
    // standalone middleware still runs.
    let mut server = Server::create();
    let mut router = Router::new();
    router.get("/known", TestController::Hello).unwrap();
    server.use_handler(RequestHandler::Router(router));
    server.use_handler(RequestHandler::Middleware(Middleware::SetHeader(
        "X-Fallback".to_string(),
        "ran".to_string(),
    )));

    let response = server.mock_request(get_request("/unknown"));
    assert_eq!(response.get_status(), StatusCode::NotFound);
    assert_eq!(response.get_header("X-Fallback").unwrap().as_str(), "ran");
}

#[test]
fn gzip_middleware_compresses_accepted_responses() {
    let mut server = Server::create();
    let mut router = Router::new();
    router.get("/data", TestController::Hello).unwrap();
    server.use_handler(RequestHandler::Router(router));
    server.use_handler(RequestHandler::Middleware(Middleware::Gzip(
        krustie::middleware::gzip::GzipEncoder,
    )));

    let mut builder = Request::builder();
    builder.method(HttpMethod::GET);
    builder.path("/data");
    builder.header("accept-encoding", "br, gzip");
    let response = server.mock_request(builder.build());

    assert_eq!(response.get_header("Content-Encoding").unwrap().as_str(), "gzip");
    let mut decoder = flate2::read::GzDecoder::new(response.get_body().as_slice());
    let mut body = Vec::new();
    decoder.read_to_end(&mut body).unwrap();
    assert_eq!(body, b"hello world".to_vec());

    // without the accept-encoding header the body stays plain
    let mut server2 = Server::create();
    let mut router2 = Router::new();
    router2.get("/data", TestController::Hello).unwrap();
    server2.use_handler(RequestHandler::Router(router2));
    server2.use_handler(RequestHandler::Middleware(Middleware::Gzip(
        krustie::middleware::gzip::GzipEncoder,
    )));
    let response = server2.mock_request(get_request("/data"));
    assert!(response.get_header("Content-Encoding").is_none());
    assert_eq!(response.get_body(), &b"hello world".to_vec());
}

#[test]
fn mock_request_with_expectation() {
    let mut server = Server::create();
    let mut router = Router::new();
    router.get("/ping", TestController::Hello).unwrap();
    server.use_handler(RequestHandler::Router(router));

    let mut expected = Response::default();
    expected.status(StatusCode::Okay);
    expected.body_text("hello world");
    assert!(server.mock_request_and_expect(get_request("/ping"), &expected));

    let mut wrong = Response::default();
    wrong.status(StatusCode::Created);
    assert!(!server.mock_request_and_expect(get_request("/ping"), &wrong));
}
