use zenith_gateway::config::RouteConfig;
use zenith_gateway::router::Router;

fn route(id: &str, prefix: &str, methods: Option<Vec<&str>>) -> RouteConfig {
    RouteConfig {
        id: id.to_string(),
        path_prefix: prefix.to_string(),
        upstream_url: format!("http://upstream/{}", id),
        methods: methods.map(|ms| ms.into_iter().map(|m| m.to_string()).collect()),
        strip_prefix: None,
        auth_required: None,
        rate_limit_tier: None,
        timeout_ms: None,
    }
}

#[test]
fn first_matching_prefix_wins() {
    let router = Router::new(vec![
        route("users", "/api/users", None),
        route("api", "/api", None),
    ]);
    assert_eq!(router.match_route("/api/users/7", "GET").unwrap().id, "users");
    assert_eq!(router.match_route("/api/orders", "GET").unwrap().id, "api");
    assert!(router.match_route("/health", "GET").is_none());
}

#[test]
fn methods_match_without_regard_to_case() {
    let router = Router::new(vec![
        route("write", "/api", Some(vec!["POST", "put"])),
        route("read", "/api", Some(vec!["GET"])),
    ]);
    assert_eq!(router.match_route("/api/x", "post").unwrap().id, "write");
    assert_eq!(router.match_route("/api/x", "PUT").unwrap().id, "write");
    assert_eq!(router.match_route("/api/x", "get").unwrap().id, "read");
    assert!(router.match_route("/api/x", "DELETE").is_none());
}

#[test]
fn route_with_no_methods_takes_every_method() {
    let router = Router::new(vec![route("any", "/", None)]);
    assert_eq!(router.match_route("/x", "PATCH").unwrap().id, "any");
}

#[test]
fn empty_prefix_matches_everything_and_empty_table_nothing() {
    let router = Router::new(vec![route("all", "", None)]);
    assert_eq!(router.match_route("", "GET").unwrap().id, "all");
    let empty = Router::new(vec![]);
    assert!(empty.match_route("/api", "GET").is_none());
}

#[test]
fn prefix_must_be_at_the_start() {
    let router = Router::new(vec![route("users", "/users", None)]);
    assert!(router.match_route("/api/users", "GET").is_none());
    assert!(router.match_route("/use", "GET").is_none());
}
