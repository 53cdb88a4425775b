use saphir::middleware::{Builder, MiddlewareRule, StopWith};
use saphir::pattern::Pattern;

#[test]
fn invalid_pattern_does_not_compile() {
    assert!(Pattern::new("[").is_none());
    assert!(Pattern::new("(unclosed").is_none());
}

#[test]
fn valid_pattern_compiles_and_matches() {
    let p = Pattern::new("^/a$").expect("valid pattern");
    assert!(p.is_match("/a"));
    assert!(!p.is_match("/b"));
    assert!(!p.is_match("x/a"));
}

#[test]
fn unanchored_pattern_matches_anywhere() {
    let p = Pattern::new("ab+c").expect("valid pattern");
    assert!(p.is_match("xxabbbcyy"));
    assert!(!p.is_match("ac"));
}

#[test]
fn try_apply_rejects_bad_patterns_and_keeps_stack() {
    let b = Builder::new();
    let (b, ok) = b.try_apply(StopWith { status: 500 }, vec!["^/fine"], Some(vec!["["]));
    assert!(!ok);
    assert_eq!(b.stack.len(), 0);

    let (b, ok) = b.try_apply(StopWith { status: 500 }, vec!["^/fine"], None);
    assert!(ok);
    assert_eq!(b.stack.len(), 1);

    let (b, ok) = b.try_apply(StopWith { status: 500 }, vec!["("], None);
    assert!(!ok);
    let stack = b.build();
    assert_eq!(stack.middlewares.len(), 1);
}

#[test]
fn rule_uses_the_pattern_not_the_raw_text() {
    // The rule must answer from regex matching, not from comparing texts:
    // the include pattern equals none of the paths it accepts.
    let rule = MiddlewareRule::new(vec!["^/u/[0-9]+$"], None);
    assert!(rule.validate_path("/u/42"));
    assert!(!rule.validate_path("^/u/[0-9]+$"));
}
