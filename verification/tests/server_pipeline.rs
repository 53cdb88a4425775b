use saphir::controller::{BasicController, BodyGuard, StaticHandler};
use saphir::message::{BinaryRequest, Method, Request, ResponseBuilder};
use saphir::middleware::{Builder as MiddlewareBuilder, MiddlewareStack, StopWith};
use saphir::router::{Builder as RouterBuilder, Router};
use saphir::server::{
    default_failure_response, parse_listener_uri, timeout_response, HttpService, ListenerBuilder,
    ListenerConfig, Scheme, Server, ServerError, DEFAULT_REQUEST_TIMEOUT_MS,
};

type TestController = BasicController<u8, StaticHandler, BodyGuard>;

fn service(
    router: Router<TestController>,
    middleware_stack: MiddlewareStack<StopWith>,
) -> HttpService<TestController, StopWith> {
    HttpService { router, middleware_stack, request_timeout: 100 }
}

fn test_router(status: u16, body: &str) -> Router<TestController> {
    let mut c: TestController = BasicController::new("/test", 0);
    c.add(Method::Get, "^/$", StaticHandler::text(status, body));
    RouterBuilder::new().add(c).build()
}

fn request(method: Method, path: &str) -> Request {
    Request::new(method, path.to_string(), String::new())
}

#[test]
fn process_routes_a_passed_request() {
    let svc = service(test_router(200, "ok"), MiddlewareStack::new());
    let resp = svc.process(request(Method::Get, "/test/"), vec![]);
    assert_eq!(resp.status, 200);
    assert_eq!(resp.body, b"ok".to_vec());
}

#[test]
fn process_returns_middleware_stop_without_routing() {
    let stack = MiddlewareBuilder::new()
        .apply(StopWith { status: 503 }, vec!["^/"], None)
        .build();
    let svc = service(test_router(200, "never"), stack);
    let resp = svc.process(request(Method::Get, "/test/"), vec![]);
    assert_eq!(resp.status, 503);
    assert_ne!(resp.body, b"never".to_vec());
}

#[test]
fn process_gives_404_when_no_route_matches() {
    let svc = service(test_router(200, "ok"), MiddlewareStack::new());
    let resp = svc.process(request(Method::Get, "/absent"), vec![]);
    assert_eq!(resp.status, 404);
}

#[test]
fn unset_status_defaults_to_200_on_build() {
    let res = ResponseBuilder::new();
    let resp = res.build().expect("well-formed");
    assert_eq!(resp.status, 200);
}

#[test]
fn malformed_header_fails_assembly_and_becomes_500() {
    // A handler that writes a header with a forbidden name: assembly fails
    // and the pipeline converts the failure into a 500 carrying the error
    // text.
    let mut res = ResponseBuilder::new();
    res.status(200);
    res.header("bad name".to_string(), "v".to_string());
    let err = res.build().expect_err("assembly must fail");
    assert_eq!(err, "malformed header in response");

    let mut c: TestController = BasicController::new("/t", 0);
    c.add(
        Method::Get,
        "^/$",
        StaticHandler {
            status: 200,
            headers: vec![("bad name".to_string(), "v".to_string())],
            body: String::new(),
        },
    );
    let router = RouterBuilder::new().add(c).build();
    let svc: HttpService<_, StopWith> =
        HttpService { router, middleware_stack: MiddlewareStack::new(), request_timeout: 0 };
    let resp = svc.process(request(Method::Get, "/t/"), vec![]);
    assert_eq!(resp.status, 500);
    assert_eq!(resp.body, b"malformed header in response".to_vec());
}

#[test]
fn header_value_with_line_break_is_rejected() {
    let mut res = ResponseBuilder::new();
    res.header("name".to_string(), "a\r\nb".to_string());
    assert!(res.build().is_err());
}

#[test]
fn well_formed_headers_survive_build() {
    let mut res = ResponseBuilder::new();
    res.status(201);
    res.header("Content-Type".to_string(), "text/plain".to_string());
    res.body(b"abc".to_vec());
    let resp = res.build().expect("well-formed");
    assert_eq!(resp.status, 201);
    assert_eq!(resp.headers, vec![("Content-Type".to_string(), "text/plain".to_string())]);
    assert_eq!(resp.body, b"abc".to_vec());
}

#[test]
fn timeout_response_is_408() {
    let resp = timeout_response();
    assert_eq!(resp.status, 408);
    assert!(resp.body.is_empty());
    assert!(resp.headers.is_empty());
}

#[test]
fn default_failure_response_is_500() {
    let resp = default_failure_response();
    assert_eq!(resp.status, 500);
    assert!(resp.body.is_empty());
}

#[test]
fn listener_uri_parses_http_and_https() {
    assert_eq!(
        parse_listener_uri("http://0.0.0.0:12345"),
        Ok((Scheme::Http, "0.0.0.0:12345".to_string()))
    );
    assert_eq!(
        parse_listener_uri("https://localhost:443"),
        Ok((Scheme::Https, "localhost:443".to_string()))
    );
}

#[test]
fn listener_uri_rejects_other_schemes() {
    assert_eq!(parse_listener_uri("ftp://x:1"), Err(ServerError::UnsupportedUriScheme));
    assert_eq!(parse_listener_uri("no-scheme"), Err(ServerError::UnsupportedUriScheme));
}

#[test]
fn listener_uri_rejects_empty_authority() {
    assert_eq!(parse_listener_uri("http://"), Err(ServerError::BadListenerConfig));
}

#[test]
fn listener_uri_rejects_slash_in_authority() {
    assert_eq!(parse_listener_uri("http://host:80/path"), Err(ServerError::InvalidUri));
}

#[test]
fn listener_builder_accumulates_configuration() {
    let config = ListenerBuilder::new()
        .set_uri("http://0.0.0.0:12345")
        .set_request_timeout_ms(10000)
        .set_ssl_certificates("cert.pem", "key.pem")
        .build();
    assert_eq!(config.request_timeout_ms, 10000);
    assert_eq!(config.uri(), Some("http://0.0.0.0:12345".to_string()));
    assert_eq!(
        config.ssl_files_path(),
        (Some("cert.pem".to_string()), Some("key.pem".to_string()))
    );
}

#[test]
fn listener_defaults() {
    let b = ListenerBuilder::new();
    assert_eq!(b.request_timeout_ms, DEFAULT_REQUEST_TIMEOUT_MS);
    assert_eq!(b.uri, None);

    let c = ListenerConfig::new();
    assert_eq!(c.request_timeout_ms, 15000);
    assert_eq!(c.uri(), None);
    assert_eq!(c.ssl_files_path(), (None, None));
}

#[test]
fn request_extensions_store_and_find_first() {
    let mut req = request(Method::Get, "/");
    assert!(req.get_extension(&"k".to_string()).is_none());
    req.insert_extension("k".to_string(), "v1".to_string());
    req.insert_extension("k".to_string(), "v2".to_string());
    assert_eq!(req.get_extension(&"k".to_string()), Some(&"v1".to_string()));
}

#[test]
fn request_headers_accumulate() {
    let mut req = request(Method::Get, "/");
    req.add_header("Accept".to_string(), "*/*".to_string());
    assert_eq!(req.headers, vec![("Accept".to_string(), "*/*".to_string())]);
}

#[test]
fn header_lookup_ignores_ascii_case() {
    let mut req = request(Method::Get, "/");
    req.add_header("Content-Type".to_string(), "text/plain".to_string());
    req.add_header("content-type".to_string(), "second".to_string());
    assert_eq!(req.get_header(&"content-TYPE".to_string()), Some(&"text/plain".to_string()));
    assert_eq!(req.get_header(&"absent".to_string()), None);
}

#[test]
fn buffering_attaches_the_collected_body() {
    let head = request(Method::Put, "/x");
    let bin = BinaryRequest::from_http_request_parts(head, b"abc".to_vec());
    assert_eq!(bin.method(), Method::Put);
    assert_eq!(bin.body(), &b"abc".to_vec());
}

#[test]
fn server_builder_applies_parts_and_defaults() {
    let server: Server<TestController, StopWith> = Server::builder()
        .configure_router(test_router(200, "ok"))
        .configure_listener(ListenerBuilder::new().set_request_timeout_ms(0).build())
        .build();
    assert_eq!(server.service.request_timeout, 0);
    assert_eq!(server.service.middleware_stack.middlewares.len(), 0);
    let resp = server.service.process(request(Method::Get, "/test/"), vec![]);
    assert_eq!(resp.status, 200);

    let defaulted: Server<TestController, StopWith> = Server::builder().build();
    assert_eq!(defaulted.listener_config.request_timeout_ms, DEFAULT_REQUEST_TIMEOUT_MS);
    assert_eq!(defaulted.service.router.routes.len(), 0);
}
