use zenith_gateway::waf::{decide, WafDecision, WafEngine};

fn block(reason: &str) -> WafDecision {
    WafDecision::Block(reason.to_string())
}

#[test]
fn blocked_ip_is_refused_first() {
    let engine = WafEngine::new().unwrap();
    let blocked = vec!["10.0.0.9".to_string(), "192.168.1.1".to_string()];
    let d = engine.inspect("/../etc", "", "SELECT 1", "192.168.1.1", &blocked);
    assert_eq!(d, block("IP address 192.168.1.1 is blacklisted"));
}

#[test]
fn path_traversal_before_sqli() {
    let engine = WafEngine::new().unwrap();
    let d = engine.inspect("/files/../x", "", "DROP TABLE users", "1.1.1.1", &[]);
    assert_eq!(d, block("Path traversal pattern detected"));
    let d = engine.inspect("/files", "f=..%2fsecret", "", "1.1.1.1", &[]);
    assert_eq!(d, block("Path traversal pattern detected"));
}

#[test]
fn traversal_in_body_is_not_inspected() {
    let engine = WafEngine::new().unwrap();
    let d = engine.inspect("/files", "", "../../etc/passwd", "1.1.1.1", &[]);
    assert_eq!(d, WafDecision::Allow);
}

#[test]
fn sqli_in_query_or_body() {
    let engine = WafEngine::new().unwrap();
    let d = engine.inspect("/api/users", "query=SELECT+*+FROM+admin+--", "", "1.1.1.1", &[]);
    assert_eq!(d, block("SQL Injection signature detected"));
    let d = engine.inspect("/api", "", "name=x' or 1=1", "1.1.1.1", &[]);
    assert_eq!(d, block("SQL Injection signature detected"));
}

#[test]
fn sqli_before_xss() {
    let engine = WafEngine::new().unwrap();
    let d = engine.inspect("/api", "", "<script>DELETE</script>", "1.1.1.1", &[]);
    assert_eq!(d, block("SQL Injection signature detected"));
}

#[test]
fn xss_detected() {
    let engine = WafEngine::new().unwrap();
    let d = engine.inspect("/api", "", "<iframe src=evil>", "1.1.1.1", &[]);
    assert_eq!(d, block("Cross-Site Scripting (XSS) signature detected"));
}

#[test]
fn clean_request_allowed() {
    let engine = WafEngine::new().unwrap();
    let blocked = vec!["10.0.0.9".to_string()];
    let d = engine.inspect("/api/v1/users/profile", "page=2", "{\"name\":\"Alice\"}", "10.0.0.1", &blocked);
    assert_eq!(d, WafDecision::Allow);
}

#[test]
fn decide_follows_priority() {
    assert_eq!(decide("1.2.3.4", true, true, true, true), block("IP address 1.2.3.4 is blacklisted"));
    assert_eq!(decide("1.2.3.4", false, true, true, true), block("Path traversal pattern detected"));
    assert_eq!(decide("1.2.3.4", false, false, true, true), block("SQL Injection signature detected"));
    assert_eq!(decide("1.2.3.4", false, false, false, true), block("Cross-Site Scripting (XSS) signature detected"));
    assert_eq!(decide("1.2.3.4", false, false, false, false), WafDecision::Allow);
}

#[test]
fn cidr_entry_blocks_its_range() {
    let engine = WafEngine::new().unwrap();
    let blocked = vec!["10.0.0.0/8".to_string()];
    assert_eq!(
        engine.inspect("/", "", "", "10.1.2.3", &blocked),
        block("IP address 10.1.2.3 is blacklisted")
    );
    assert_eq!(engine.inspect("/", "", "", "11.0.0.1", &blocked), WafDecision::Allow);
}

#[test]
fn cidr_entry_edges() {
    let engine = WafEngine::new().unwrap();
    let blocked = vec!["192.168.1.128/25".to_string()];
    assert_eq!(
        engine.inspect("/", "", "", "192.168.1.255", &blocked),
        block("IP address 192.168.1.255 is blacklisted")
    );
    assert_eq!(
        engine.inspect("/", "", "", "192.168.1.128", &blocked),
        block("IP address 192.168.1.128 is blacklisted")
    );
    assert_eq!(engine.inspect("/", "", "", "192.168.1.127", &blocked), WafDecision::Allow);
    let all = vec!["0.0.0.0/0".to_string()];
    assert_eq!(
        engine.inspect("/", "", "", "255.255.255.255", &all),
        block("IP address 255.255.255.255 is blacklisted")
    );
    let one = vec!["8.8.8.8/32".to_string()];
    assert_eq!(engine.inspect("/", "", "", "8.8.8.9", &one), WafDecision::Allow);
}

#[test]
fn malformed_entries_and_addresses_match_only_by_text() {
    let engine = WafEngine::new().unwrap();
    let blocked = vec!["10.0.0.0/33".to_string(), "10.0.0/8".to_string(), "::1".to_string()];
    assert_eq!(engine.inspect("/", "", "", "10.0.0.1", &blocked), WafDecision::Allow);
    assert_eq!(engine.inspect("/", "", "", "::1", &blocked), block("IP address ::1 is blacklisted"));
    let range = vec!["10.0.0.0/8".to_string()];
    assert_eq!(engine.inspect("/", "", "", "010.0.0.1", &range), WafDecision::Allow);
}
