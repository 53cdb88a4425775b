use saphir::message::{Method, Request, RequestContinuation, ResponseBuilder};
use saphir::middleware::{
    Builder, BuiltinMiddleware, ExtensionTag, MiddlewareRule, StopIfTagged, StopWith,
};

fn request(path: &str) -> Request {
    Request::new(Method::Get, path.to_string(), String::new())
}

fn tag(key: &str, value: &str) -> BuiltinMiddleware {
    BuiltinMiddleware::Tag(ExtensionTag { key: key.to_string(), value: value.to_string() })
}

fn stop_if_tagged(key: &str, status: u16) -> BuiltinMiddleware {
    BuiltinMiddleware::StopTagged(StopIfTagged { key: key.to_string(), status })
}

#[test]
fn rule_matches_include_unless_excluded() {
    let rule = MiddlewareRule::new(vec!["^/api"], Some(vec!["^/api/internal"]));
    assert!(rule.validate_path("/api/users"));
    assert!(!rule.validate_path("/api/internal/users"));
    assert!(!rule.validate_path("/public"));
}

#[test]
fn rule_without_excludes_matches_any_include() {
    let rule = MiddlewareRule::new(vec!["^/a", "^/b"], None);
    assert!(rule.validate_path("/a"));
    assert!(rule.validate_path("/b/c"));
    assert!(!rule.validate_path("/c"));
}

#[test]
fn later_middleware_observes_earlier_mutation() {
    // A tags the request, B stops when it sees the tag: with order [A, B]
    // the chain stops with B's status.
    let stack = Builder::new()
        .apply(tag("seen", "yes"), vec!["^/"], None)
        .apply(stop_if_tagged("seen", 418), vec!["^/"], None)
        .build();

    let mut req = request("/anything");
    let mut res = ResponseBuilder::new();
    let c = stack.resolve(&mut req, &mut res);
    assert_eq!(c, RequestContinuation::Stop);
    assert_eq!(res.build().expect("well-formed").status, 418);
}

#[test]
fn reversed_order_removes_visibility() {
    // With order [B, A], B runs before the tag exists and continues; the
    // chain passes the request through.
    let stack = Builder::new()
        .apply(stop_if_tagged("seen", 418), vec!["^/"], None)
        .apply(tag("seen", "yes"), vec!["^/"], None)
        .build();

    let mut req = request("/anything");
    let mut res = ResponseBuilder::new();
    let c = stack.resolve(&mut req, &mut res);
    assert_eq!(c, RequestContinuation::Continue);
    assert_eq!(
        req.get_extension(&"seen".to_string()).map(|v| v.clone()),
        Some("yes".to_string())
    );
}

#[test]
fn stopping_middleware_short_circuits_the_rest() {
    // The stopper runs first; the tagger after it must never run.
    let stack = Builder::new()
        .apply(BuiltinMiddleware::Stop(StopWith { status: 503 }), vec!["^/"], None)
        .apply(tag("seen", "yes"), vec!["^/"], None)
        .build();

    let mut req = request("/x");
    let mut res = ResponseBuilder::new();
    let c = stack.resolve(&mut req, &mut res);
    assert_eq!(c, RequestContinuation::Stop);
    assert_eq!(res.build().expect("well-formed").status, 503);
    assert!(req.get_extension(&"seen".to_string()).is_none());
}

#[test]
fn non_matching_rule_is_skipped() {
    let stack = Builder::new()
        .apply(BuiltinMiddleware::Stop(StopWith { status: 503 }), vec!["^/admin"], None)
        .build();

    let mut req = request("/public");
    let mut res = ResponseBuilder::new();
    let c = stack.resolve(&mut req, &mut res);
    assert_eq!(c, RequestContinuation::Continue);
}

#[test]
fn excluded_path_bypasses_middleware() {
    let stack = Builder::new()
        .apply(
            BuiltinMiddleware::Stop(StopWith { status: 503 }),
            vec!["^/"],
            Some(vec!["^/health$"]),
        )
        .build();

    let mut req = request("/health");
    let mut res = ResponseBuilder::new();
    assert_eq!(stack.resolve(&mut req, &mut res), RequestContinuation::Continue);

    let mut req2 = request("/other");
    let mut res2 = ResponseBuilder::new();
    assert_eq!(stack.resolve(&mut req2, &mut res2), RequestContinuation::Stop);
}
