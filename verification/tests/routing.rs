use saphir::controller::{BasicController, BodyGuard, Controller, StaticHandler};
use saphir::message::{BinaryRequest, Method, Request, ResponseBuilder};
use saphir::router::{Builder, RouterOutcome};

type TestController = BasicController<u8, StaticHandler, BodyGuard>;

fn binary_request(method: Method, path: &str) -> BinaryRequest {
    BinaryRequest {
        head: Request::new(method, path.to_string(), String::new()),
        body: vec![],
    }
}

fn controller(base: &str, status: u16, body: &str) -> TestController {
    let mut c: TestController = BasicController::new(base, 0);
    c.add(Method::Get, "^/$", StaticHandler::text(status, body));
    c
}

#[test]
fn prefix_is_stripped_before_controller_dispatch() {
    // A controller registered at /test receiving /test/query sees /query.
    let mut c: TestController = BasicController::new("/test", 0);
    c.add(Method::Get, "^/query$", StaticHandler::text(200, "q"));
    let router = Builder::new().add(c).build();

    let mut req = binary_request(Method::Get, "/test/query");
    let mut res = ResponseBuilder::new();
    let o = router.dispatch(&mut req, &mut res);
    assert_eq!(o, RouterOutcome::Routed { route: 0 });
    assert_eq!(req.head.path, "/query");
    assert_eq!(res.build().expect("well-formed").status, 200);
}

#[test]
fn two_controllers_route_by_prefix() {
    // One controller at its own base path /test, a second mounted at /api by
    // explicit prefix: each root entry answers under its own prefix.
    let first = controller("/test", 201, "first");
    let second = controller("/unused-base", 202, "second");
    let router = Builder::new().add(first).route("/api", second).build();

    let mut req = binary_request(Method::Get, "/api/");
    let mut res = ResponseBuilder::new();
    assert_eq!(router.dispatch(&mut req, &mut res), RouterOutcome::Routed { route: 1 });
    let resp = res.build().expect("well-formed");
    assert_eq!(resp.status, 202);
    assert_eq!(resp.body, b"second".to_vec());

    let mut req2 = binary_request(Method::Get, "/test/");
    let mut res2 = ResponseBuilder::new();
    assert_eq!(router.dispatch(&mut req2, &mut res2), RouterOutcome::Routed { route: 0 });
    let resp2 = res2.build().expect("well-formed");
    assert_eq!(resp2.status, 201);
    assert_eq!(resp2.body, b"first".to_vec());
}

#[test]
fn no_matching_prefix_yields_404() {
    let router = Builder::new().add(controller("/test", 200, "x")).build();
    let mut req = binary_request(Method::Get, "/elsewhere");
    let mut res = ResponseBuilder::new();
    assert_eq!(router.dispatch(&mut req, &mut res), RouterOutcome::NotFound);
    assert_eq!(res.build().expect("well-formed").status, 404);
}

#[test]
fn first_registered_route_wins_over_longer_prefix() {
    // Routers do not attempt longest-prefix matching: /a registered before
    // /a/b takes /a/b/c.
    let broad = controller("/a", 201, "broad");
    let narrow = controller("/a/b", 202, "narrow");
    let router = Builder::new().add(broad).add(narrow).build();

    let mut req = binary_request(Method::Get, "/a/b/c");
    let mut res = ResponseBuilder::new();
    assert_eq!(router.dispatch(&mut req, &mut res), RouterOutcome::Routed { route: 0 });
    assert_eq!(req.head.path, "/b/c");
}

#[test]
fn base_path_comes_from_the_controller() {
    let c = controller("/mine", 200, "x");
    assert_eq!(c.base_path(), "/mine");
}

#[test]
fn controller_handle_matches_method_and_pattern() {
    // Routing misses inside a selected controller: wrong method is 405,
    // wrong path is 400.
    let c = controller("/test", 200, "x");
    let router = Builder::new().add(c).build();

    let mut req = binary_request(Method::Post, "/test/");
    let mut res = ResponseBuilder::new();
    assert_eq!(router.dispatch(&mut req, &mut res), RouterOutcome::Routed { route: 0 });
    assert_eq!(res.build().expect("well-formed").status, 405);

    let mut req2 = binary_request(Method::Get, "/test/nope");
    let mut res2 = ResponseBuilder::new();
    assert_eq!(router.dispatch(&mut req2, &mut res2), RouterOutcome::Routed { route: 0 });
    assert_eq!(res2.build().expect("well-formed").status, 400);
}
