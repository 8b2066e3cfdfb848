use blog_core::route::{Method, Request, RouteRule};
use blog_core::text::request_path;

#[test]
fn wildcard_matches_any_suffix() {
    let rule = RouteRule::compile("/admin/*");
    assert!(rule.is_wildcard());
    assert!(rule.matches("/admin/anything"));
    assert!(rule.matches("/admin/a/b/c"));
    assert!(rule.matches("/admin/"));
}

#[test]
fn wildcard_needs_its_whole_literal_part() {
    let rule = RouteRule::compile("/admin/*");
    assert!(!rule.matches("/admin"));
    assert!(!rule.matches("/adminx/y"));
    assert!(!rule.matches("/"));
    assert!(!rule.matches(""));
}

#[test]
fn literal_matches_identical_path_only() {
    let rule = RouteRule::compile("/article/all");
    assert!(!rule.is_wildcard());
    assert!(rule.matches("/article/all"));
    assert!(!rule.matches("/article/all/"));
    assert!(!rule.matches("/article/al"));
    assert!(!rule.matches("/article/all/more"));
    assert!(!rule.matches("/article"));
}

#[test]
fn matching_is_case_sensitive() {
    assert!(!RouteRule::compile("/admin/*").matches("/Admin/x"));
    assert!(!RouteRule::compile("/Login").matches("/login"));
    assert!(RouteRule::compile("/Login").matches("/Login"));
}

#[test]
fn query_string_takes_no_part_in_matching() {
    let literal = RouteRule::compile("/login");
    assert!(literal.matches("/login?next=/admin/x"));
    assert!(literal.matches("/login?"));
    assert!(!literal.matches("/logi?n"));
    let wildcard = RouteRule::compile("/admin/*");
    assert!(wildcard.matches("/admin/x?y=1"));
    assert!(!wildcard.matches("/public?next=/admin/x"));
}

#[test]
fn star_elsewhere_is_an_ordinary_character() {
    let rule = RouteRule::compile("/a*/b");
    assert!(!rule.is_wildcard());
    assert!(rule.matches("/a*/b"));
    assert!(!rule.matches("/ax/b"));
    let double = RouteRule::compile("/a**");
    assert!(double.is_wildcard());
    assert!(double.matches("/a*"));
    assert!(double.matches("/a*bc"));
    assert!(!double.matches("/ab"));
}

#[test]
fn lone_star_matches_everything_and_empty_pattern_only_the_empty_path() {
    let all = RouteRule::compile("*");
    assert!(all.matches(""));
    assert!(all.matches("/anything/at/all"));
    let none = RouteRule::compile("");
    assert!(none.matches(""));
    assert!(none.matches("?q=1"));
    assert!(!none.matches("/"));
}

#[test]
fn non_ascii_paths_are_compared_by_character() {
    let rule = RouteRule::compile("/文章/*");
    assert!(rule.matches("/文章/一"));
    assert!(!rule.matches("/文字/一"));
    assert!(RouteRule::compile("/é").matches("/é?x"));
}

#[test]
fn rule_without_verbs_covers_every_method() {
    let rule = RouteRule::compile("/admin/*");
    for method in [
        Method::Get,
        Method::Post,
        Method::Put,
        Method::Delete,
        Method::Options,
        Method::Head,
        Method::Patch,
        Method::Connect,
        Method::Trace,
    ] {
        assert!(rule.allows(method));
        assert!(rule.applies(&Request::new(method, "/admin/x")));
    }
}

#[test]
fn rule_with_verbs_covers_only_those() {
    let rule = RouteRule::compile_for("/article/*", vec![Method::Post, Method::Delete]);
    assert!(rule.allows(Method::Post));
    assert!(rule.allows(Method::Delete));
    assert!(!rule.allows(Method::Get));
    assert!(rule.applies(&Request::new(Method::Post, "/article/1")));
    assert!(!rule.applies(&Request::new(Method::Get, "/article/1")));
    assert!(!rule.applies(&Request::new(Method::Post, "/quote/1")));
    let nothing = RouteRule::compile_for("/article/*", vec![]);
    assert!(!nothing.applies(&Request::new(Method::Post, "/article/1")));
}

#[test]
fn cloned_rule_decides_alike() {
    let rule = RouteRule::compile_for("/admin/*", vec![Method::Get]);
    let copy = rule.clone();
    for target in ["/admin/x", "/admin", "/other", "/admin/x?y"] {
        for method in [Method::Get, Method::Post] {
            let request = Request::new(method, target);
            assert_eq!(rule.applies(&request), copy.applies(&request));
        }
    }
}

#[test]
fn request_path_drops_the_query_string() {
    assert_eq!(request_path("/article/all?page=2"), "/article/all");
    assert_eq!(request_path("/article/all"), "/article/all");
    assert_eq!(request_path("/a?b?c"), "/a");
    assert_eq!(request_path("?x"), "");
    assert_eq!(request_path(""), "");
    assert_eq!(request_path("/文章?x=1"), "/文章");
}

#[test]
fn request_keeps_method_and_target() {
    let request = Request::new(Method::Put, "/article/7?x");
    assert_eq!(request.method, Method::Put);
    assert_eq!(request.target, "/article/7?x");
}
