use hyper_router::HyperRouter;
use hyper_router::Method;
use hyper_router::Path;
use hyper_router::RouterError;
use hyper_router::pattern_is_valid;

const ALL_METHODS: [Method; 8] = [
    Method::Get,
    Method::Post,
    Method::Put,
    Method::Patch,
    Method::Delete,
    Method::Options,
    Method::Head,
    Method::Trace,
];

#[test]
fn empty_router_is_not_implemented_for_every_method() {
    let router: HyperRouter<i32> = HyperRouter::new();
    for method in ALL_METHODS {
        assert_eq!(
            router.find_handler(&method, "/anything"),
            Err(RouterError::NotImplemented)
        );
        assert_eq!(router.find_handler(&method, ""), Err(RouterError::NotImplemented));
    }
    assert_eq!(router.route_count(), 0);
}

#[test]
fn unmatched_path_is_not_found() {
    let router = HyperRouter::new().get("^/known$", 1);
    assert_eq!(router.find_handler(&Method::Get, "/unknown"), Err(RouterError::NotFound));
    assert_eq!(router.find_handler(&Method::Get, "/known"), Ok(1));
}

#[test]
fn first_match_wins_on_overlapping_patterns() {
    // Both patterns match "/xy" (matching is an unanchored substring search),
    // so the earlier registration shadows the later one.
    let router = HyperRouter::new().get("/x", 1).get("/xy", 2);
    assert_eq!(router.find_handler(&Method::Get, "/xy"), Ok(1));
}

#[test]
fn duplicate_patterns_keep_the_earlier_handler() {
    let router = HyperRouter::new().get("^/dup$", 1).get("^/dup$", 2);
    assert_eq!(router.find_handler(&Method::Get, "/dup"), Ok(1));
}

#[test]
fn get_route_never_answers_post() {
    let router = HyperRouter::new().get("^/same$", 1);
    assert_eq!(router.find_handler(&Method::Get, "/same"), Ok(1));
    // No POST route exists at all, so the method itself is unsupported.
    assert_eq!(router.find_handler(&Method::Post, "/same"), Err(RouterError::NotImplemented));

    let router = router.post("^/other$", 2);
    // Now POST routes exist, but none matches this path.
    assert_eq!(router.find_handler(&Method::Post, "/same"), Err(RouterError::NotFound));
    assert_eq!(router.find_handler(&Method::Get, "/same"), Ok(1));
}

#[test]
fn later_registration_for_another_method_leaves_resolution_unchanged() {
    let before = HyperRouter::new().get("^/g$", 1);
    let after = HyperRouter::new().get("^/g$", 1).post("^/p$", 2);
    for path in ["/g", "/p", "/none"] {
        assert_eq!(
            before.find_handler(&Method::Get, path),
            after.find_handler(&Method::Get, path)
        );
    }
    assert_eq!(after.find_handler(&Method::Post, "/p"), Ok(2));
}

#[test]
fn hello_get_scenario() {
    let router = HyperRouter::new().get("/hello_get", 1);
    assert_eq!(router.find_handler(&Method::Get, "/hello_get"), Ok(1));
    assert_eq!(
        router.find_handler(&Method::Post, "/hello_get"),
        Err(RouterError::NotImplemented)
    );
}

#[test]
fn hello_get_hello_post_scenario() {
    let router = HyperRouter::new().get("/hello_get", 1).post("/hello_post", 2);
    assert_eq!(router.find_handler(&Method::Get, "/hello_get"), Ok(1));
    assert_eq!(router.find_handler(&Method::Post, "/hello_post"), Ok(2));
    assert_eq!(router.find_handler(&Method::Get, "/hello_post"), Err(RouterError::NotFound));
}

#[test]
fn user_routes_scenario() {
    let router = HyperRouter::new().get("/user/[0-9]+", 1).get("/user/new", 2);
    assert_eq!(router.find_handler(&Method::Get, "/user/42"), Ok(1));
    // "/user/new" holds no digits, so the first pattern does not match it
    // even as a substring, and the second route answers.
    assert_eq!(router.find_handler(&Method::Get, "/user/new"), Ok(2));
}

#[test]
fn every_method_registers_and_resolves() {
    let router = HyperRouter::new()
        .get("^/get$", 1)
        .post("^/post$", 2)
        .put("^/put$", 3)
        .patch("^/patch$", 4)
        .delete("^/delete$", 5)
        .options("^/options$", 6)
        .head("^/head$", 7)
        .trace("^/trace$", 8);
    assert_eq!(router.route_count(), 8);
    assert_eq!(router.find_handler(&Method::Get, "/get"), Ok(1));
    assert_eq!(router.find_handler(&Method::Post, "/post"), Ok(2));
    assert_eq!(router.find_handler(&Method::Put, "/put"), Ok(3));
    assert_eq!(router.find_handler(&Method::Patch, "/patch"), Ok(4));
    assert_eq!(router.find_handler(&Method::Delete, "/delete"), Ok(5));
    assert_eq!(router.find_handler(&Method::Options, "/options"), Ok(6));
    assert_eq!(router.find_handler(&Method::Head, "/head"), Ok(7));
    assert_eq!(router.find_handler(&Method::Trace, "/trace"), Ok(8));
    // Each method only answers its own path.
    assert_eq!(router.find_handler(&Method::Get, "/post"), Err(RouterError::NotFound));
    assert_eq!(router.find_handler(&Method::Trace, "/get"), Err(RouterError::NotFound));
}

#[test]
fn checked_route_registers_valid_patterns() {
    let router: HyperRouter<i32> = HyperRouter::new();
    let router = match router.checked_route(Method::Put, "^/v/[a-z]+$", 9) {
        Ok(router) => router,
        Err(_) => panic!("a valid pattern must register"),
    };
    assert_eq!(router.route_count(), 1);
    assert_eq!(router.find_handler(&Method::Put, "/v/abc"), Ok(9));
    assert_eq!(router.find_handler(&Method::Put, "/v/123"), Err(RouterError::NotFound));
}

#[test]
fn invalid_pattern_is_rejected_not_silently_dropped() {
    assert!(!pattern_is_valid("["));
    assert!(pattern_is_valid("/hello"));
    assert!(Path::try_new("(unclosed").is_none());
    assert!(Path::try_new("(closed)").is_some());

    let router: HyperRouter<i32> = HyperRouter::new();
    let router = match router.checked_route(Method::Get, "[", 1) {
        Ok(_) => panic!("an invalid pattern must not register a route"),
        Err(unchanged) => unchanged,
    };
    assert_eq!(router.route_count(), 0);
    assert_eq!(router.find_handler(&Method::Get, "/x"), Err(RouterError::NotImplemented));
}

#[test]
fn matching_is_unanchored_substring_search() {
    let bare = Path::try_new("b").unwrap();
    assert!(bare.matches("/abc"));
    assert!(!bare.matches("/acd"));

    let anchored = Path::try_new("^/a$").unwrap();
    assert!(anchored.matches("/a"));
    assert!(!anchored.matches("/ab"));
    assert!(!anchored.matches("x/a"));

    let digits = Path::try_new("^/n/[0-9]+$").unwrap();
    assert!(digits.matches("/n/007"));
    assert!(!digits.matches("/n/"));
    assert!(!digits.matches("/n/seven"));
}

fn greet(name: String) -> String {
    format!("hello, {name}")
}

fn dismiss(name: String) -> String {
    format!("goodbye, {name}")
}

#[test]
fn function_pointer_handlers_are_returned_intact() {
    type Handler = fn(String) -> String;
    let router: HyperRouter<Handler> = HyperRouter::new()
        .get("^/greet$", greet as Handler)
        .delete("^/dismiss$", dismiss as Handler);
    let handler = router.find_handler(&Method::Get, "/greet").unwrap();
    assert_eq!(handler(String::from("world")), "hello, world");
    let handler = router.find_handler(&Method::Delete, "/dismiss").unwrap();
    assert_eq!(handler(String::from("world")), "goodbye, world");
    assert!(router.find_handler(&Method::Post, "/greet").is_err());
}
