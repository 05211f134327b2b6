use zenith_gateway::config::RouteConfig;
use zenith_gateway::gateway::{http_reply, Gateway};

fn route(id: &str, prefix: &str, upstream: &str) -> RouteConfig {
    RouteConfig {
        id: id.to_string(),
        path_prefix: prefix.to_string(),
        upstream_url: upstream.to_string(),
        methods: None,
        strip_prefix: None,
        auth_required: None,
        rate_limit_tier: None,
        timeout_ms: None,
    }
}

fn gateway() -> Gateway {
    Gateway::new(vec![
        route("users-service", "/api/users", "http://127.0.0.1:8081"),
        route("orders-service", "/api/orders", "http://127.0.0.1:8082"),
    ])
    .unwrap()
}

#[test]
fn reply_declares_byte_length() {
    assert_eq!(
        http_reply("200 OK", "text/plain", "héllo"),
        "HTTP/1.1 200 OK\r\nContent-Type: text/plain\r\nContent-Length: 6\r\n\r\nhéllo"
    );
}

#[test]
fn health_endpoint() {
    let mut g = gateway();
    let r = g.handle("GET /health HTTP/1.1\r\n\r\n", "1.2.3.4").unwrap();
    let body = "{\"status\":\"healthy\",\"gateway\":\"zenith-rs\"}";
    assert_eq!(r, format!("HTTP/1.1 200 OK\r\nContent-Type: application/json\r\nContent-Length: {}\r\n\r\n{}", body.len(), body));
}

#[test]
fn forwarded_request() {
    let mut g = gateway();
    let r = g.handle("GET /api/users/1 HTTP/1.1\r\nHost: x\r\n\r\n", "1.2.3.4").unwrap();
    let body = "{\"proxy\":\"zenith-gateway\",\"status\":\"forwarded\",\"route_id\":\"users-service\",\"upstream\":\"http://127.0.0.1:8081\"}";
    assert_eq!(r, format!("HTTP/1.1 200 OK\r\nContent-Type: application/json\r\nContent-Length: {}\r\n\r\n{}", body.len(), body));
}

#[test]
fn unknown_path_not_found() {
    let mut g = gateway();
    let r = g.handle("GET /nowhere HTTP/1.1\r\n\r\n", "1.2.3.4").unwrap();
    assert!(r.starts_with("HTTP/1.1 404 Not Found\r\n"));
    assert!(r.ends_with("{\"error\":\"Not Found\",\"message\":\"No matching route\"}"));
}

#[test]
fn waf_blocks_sqli_in_the_request() {
    let mut g = gateway();
    let r = g.handle("GET /api/users?query=SELECT+*+FROM+admin+-- HTTP/1.1\r\n\r\n", "1.2.3.4").unwrap();
    assert!(r.starts_with("HTTP/1.1 403 Forbidden\r\n"));
    assert!(r.ends_with("{\"error\":\"Forbidden by Zenith WAF\",\"reason\":\"SQL Injection signature detected\"}"));
    let m = g.handle("GET /metrics HTTP/1.1\r\n\r\n", "1.2.3.4").unwrap();
    assert!(m.contains("zenith_requests_total 2\n"));
    assert!(m.contains("zenith_waf_blocks_total 1\n"));
    assert!(m.contains("zenith_rate_limited_total 0\n"));
}

#[test]
fn malformed_and_empty_requests_get_no_reply() {
    let mut g = gateway();
    assert_eq!(g.handle("", "1.2.3.4"), None);
    assert_eq!(g.handle("GARBAGE\r\n", "1.2.3.4"), None);
    let m = g.handle("GET /metrics HTTP/1.1\r\n\r\n", "1.2.3.4").unwrap();
    assert!(m.contains("zenith_requests_total 2\n"));
}

#[test]
fn client_is_rate_limited_after_its_burst() {
    let mut g = gateway();
    let mut limited = 0;
    let mut forwarded = 0;
    for _ in 0..201 {
        let r = g.handle("GET /api/orders HTTP/1.1\r\n\r\n", "9.9.9.9").unwrap();
        if r.starts_with("HTTP/1.1 429 Too Many Requests\r\n") {
            limited += 1;
        } else if r.starts_with("HTTP/1.1 200 OK\r\n") {
            forwarded += 1;
        }
    }
    // The burst of 200 is always granted; the 201st only if the clock refilled the bucket.
    assert!(forwarded >= 200);
    assert_eq!(limited + forwarded, 201);
    let m = g.handle("GET /metrics HTTP/1.1\r\n\r\n", "9.9.9.9").unwrap();
    assert!(m.contains(&format!("zenith_rate_limited_total {}\n", limited)));
    // Another client is unaffected.
    let r = g.handle("GET /api/orders HTTP/1.1\r\n\r\n", "8.8.8.8").unwrap();
    assert!(r.starts_with("HTTP/1.1 200 OK\r\n"));
}
