use zenith_gateway::waf::{WafEngine, WafRule};

#[test]
fn test_waf_sqli_patterns() {
    let engine = WafEngine::new().unwrap();

    assert!(engine.matches_rule(WafRule::SqlInjection, "SELECT * FROM users WHERE id = 1"));
    assert!(engine.matches_rule(WafRule::SqlInjection, "' UNION SELECT username, password FROM admin --"));
    assert!(engine.matches_rule(WafRule::SqlInjection, "1 OR 1=1"));
    assert!(!engine.matches_rule(WafRule::SqlInjection, "/api/v1/users/profile"));
}

#[test]
fn test_waf_xss_patterns() {
    let engine = WafEngine::new().unwrap();

    assert!(engine.matches_rule(WafRule::CrossSiteScripting, "<script>alert(1)</script>"));
    assert!(engine.matches_rule(WafRule::CrossSiteScripting, "<img src=x onerror=alert(1)>"));
    assert!(engine.matches_rule(WafRule::CrossSiteScripting, "javascript:alert(document.cookie)"));
    assert!(!engine.matches_rule(WafRule::CrossSiteScripting, "{\"name\":\"Alice\",\"age\":30}"));
}

#[test]
fn test_waf_path_traversal() {
    let engine = WafEngine::new().unwrap();

    assert!(engine.matches_rule(WafRule::PathTraversal, "/etc/passwd/../../../secret"));
    assert!(engine.matches_rule(WafRule::PathTraversal, "/api/files/%2e%2e/config.json"));
    assert!(!engine.matches_rule(WafRule::PathTraversal, "/api/v1/static/image.png"));
}
