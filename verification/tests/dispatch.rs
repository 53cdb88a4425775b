use saphir::controller::{
    BodyGuard, ControllerDispatch, DispatchOutcome, RequestGuardCollection, StaticHandler,
};
use saphir::message::{BinaryRequest, Method, Request, Response, ResponseBuilder};

fn binary_request(method: Method, path: &str, body: Vec<u8>) -> BinaryRequest {
    BinaryRequest {
        head: Request::new(method, path.to_string(), String::new()),
        body,
    }
}

fn build(res: ResponseBuilder) -> Response {
    res.build().expect("well-formed response")
}

#[test]
fn method_miss_yields_405_regardless_of_path() {
    let mut d: ControllerDispatch<u8, StaticHandler, BodyGuard> = ControllerDispatch::new(0);
    d.add(Method::Get, "^/$", StaticHandler::text(200, "a"));
    d.add(Method::Get, "^/x$", StaticHandler::text(200, "b"));

    for path in ["/", "/x", "/nowhere"] {
        let req = binary_request(Method::Post, path, vec![1]);
        let mut res = ResponseBuilder::new();
        let o = d.dispatch(&req, &mut res);
        assert_eq!(o, DispatchOutcome::MethodNotAllowed);
        assert_eq!(build(res).status, 405);
    }
}

#[test]
fn path_miss_yields_400() {
    let mut d: ControllerDispatch<u8, StaticHandler, BodyGuard> = ControllerDispatch::new(0);
    d.add(Method::Get, "^/only$", StaticHandler::text(200, "a"));

    let req = binary_request(Method::Get, "/other", vec![]);
    let mut res = ResponseBuilder::new();
    let o = d.dispatch(&req, &mut res);
    assert_eq!(o, DispatchOutcome::PatternNotMatched);
    assert_eq!(build(res).status, 400);
}

#[test]
fn first_match_wins_over_more_specific_later_entry() {
    // The less specific pattern is registered first; the more specific one
    // second.  Both match "/abc": the first-registered entry is chosen.
    let mut d: ControllerDispatch<u8, StaticHandler, BodyGuard> = ControllerDispatch::new(0);
    d.add(Method::Get, "^/", StaticHandler::text(201, "broad"));
    d.add(Method::Get, "^/abc$", StaticHandler::text(202, "specific"));

    let req = binary_request(Method::Get, "/abc", vec![]);
    let mut res = ResponseBuilder::new();
    let o = d.dispatch(&req, &mut res);
    assert_eq!(o, DispatchOutcome::Handled { entry: 0 });
    assert_eq!(build(res).status, 201);
}

#[test]
fn guard_stop_prevents_handler_invocation() {
    // The body guard vetoes the empty body; the handler is never the
    // outcome, and nothing the handler would write reaches the response.
    let mut d: ControllerDispatch<u8, StaticHandler, BodyGuard> = ControllerDispatch::new(0);
    let mut guards = RequestGuardCollection::new();
    guards.add(BodyGuard);
    d.add_with_guards(Method::Get, "^/$", guards, StaticHandler::text(200, "handled"));

    let req = binary_request(Method::Get, "/", vec![]);
    let mut res = ResponseBuilder::new();
    let o = d.dispatch(&req, &mut res);
    assert_eq!(o, DispatchOutcome::GuardStopped { entry: 0, guard: 0 });
    let resp = build(res);
    assert_eq!(resp.status, 400);
    assert!(resp.body.is_empty());
}

#[test]
fn guards_run_in_order_and_handler_runs_after_continues() {
    let mut d: ControllerDispatch<u8, StaticHandler, BodyGuard> = ControllerDispatch::new(0);
    let mut guards = RequestGuardCollection::new();
    guards.add(BodyGuard);
    guards.add_boxed(Box::new(BodyGuard));
    d.add_with_guards(Method::Put, "^/in$", guards, StaticHandler::text(204, "through"));

    let req = binary_request(Method::Put, "/in", b"payload".to_vec());
    let mut res = ResponseBuilder::new();
    let o = d.dispatch(&req, &mut res);
    assert_eq!(o, DispatchOutcome::Handled { entry: 0 });
    let resp = build(res);
    assert_eq!(resp.status, 204);
    assert_eq!(resp.body, b"through".to_vec());
}

#[test]
fn get_root_invokes_handler_a() {
    // Entry (GET, "^/$", handler_A) with request GET / : handler_A handles,
    // no guard involved, and the response is what handler_A constructed.
    let mut d: ControllerDispatch<u8, StaticHandler, BodyGuard> = ControllerDispatch::new(0);
    d.add(Method::Get, "^/$", StaticHandler::text(200, "from handler_A"));

    let req = binary_request(Method::Get, "/", vec![]);
    let mut res = ResponseBuilder::new();
    let o = d.dispatch(&req, &mut res);
    assert_eq!(o, DispatchOutcome::Handled { entry: 0 });
    let resp = build(res);
    assert_eq!(resp.status, 200);
    assert_eq!(resp.body, b"from handler_A".to_vec());
}

#[test]
fn body_guard_stops_empty_put_with_client_error() {
    // Entry (PUT, "^/with-body", [BodyGuard], handler_B) with an empty body:
    // the guard stops, handler_B never runs, and the status is a client
    // error.
    let mut d: ControllerDispatch<u8, StaticHandler, BodyGuard> = ControllerDispatch::new(0);
    let mut guards = RequestGuardCollection::new();
    guards.add(BodyGuard);
    d.add_with_guards(Method::Put, "^/with-body", guards, StaticHandler::text(200, "handler_B"));

    let req = binary_request(Method::Put, "/with-body", vec![]);
    let mut res = ResponseBuilder::new();
    let o = d.dispatch(&req, &mut res);
    assert_eq!(o, DispatchOutcome::GuardStopped { entry: 0, guard: 0 });
    let resp = build(res);
    assert!((400..500).contains(&resp.status));
    assert_ne!(resp.body, b"handler_B".to_vec());
}

#[test]
fn body_guard_lets_nonempty_put_through() {
    let mut d: ControllerDispatch<u8, StaticHandler, BodyGuard> = ControllerDispatch::new(0);
    let mut guards = RequestGuardCollection::new();
    guards.add(BodyGuard);
    d.add_with_guards(Method::Put, "^/with-body", guards, StaticHandler::text(200, "handler_B"));

    let req = binary_request(Method::Put, "/with-body", b"data".to_vec());
    let mut res = ResponseBuilder::new();
    let o = d.dispatch(&req, &mut res);
    assert_eq!(o, DispatchOutcome::Handled { entry: 0 });
    assert_eq!(build(res).body, b"handler_B".to_vec());
}

#[test]
fn static_handler_writes_status_headers_and_body() {
    let mut d: ControllerDispatch<u8, StaticHandler, BodyGuard> = ControllerDispatch::new(0);
    d.add(
        Method::Get,
        "^/$",
        StaticHandler {
            status: 200,
            headers: vec![("Content-Type".to_string(), "text/plain".to_string())],
            body: "hello".to_string(),
        },
    );

    let req = binary_request(Method::Get, "/", vec![]);
    let mut res = ResponseBuilder::new();
    let o = d.dispatch(&req, &mut res);
    assert_eq!(o, DispatchOutcome::Handled { entry: 0 });
    let resp = build(res);
    assert_eq!(resp.status, 200);
    assert_eq!(resp.headers, vec![("Content-Type".to_string(), "text/plain".to_string())]);
    assert_eq!(resp.body, b"hello".to_vec());
}

#[test]
fn try_add_rejects_invalid_pattern_and_keeps_table() {
    let mut d: ControllerDispatch<u8, StaticHandler, BodyGuard> = ControllerDispatch::new(0);
    assert!(d.try_add(Method::Get, "^/$", StaticHandler::text(200, "")));
    assert!(!d.try_add(Method::Get, "[", StaticHandler::text(200, "")));
    assert_eq!(d.delegates.len(), 1);

    let guards = RequestGuardCollection::new();
    assert!(!d.try_add_with_guards(Method::Get, "(unclosed", guards, StaticHandler::text(200, "")));
    assert_eq!(d.delegates.len(), 1);
}
