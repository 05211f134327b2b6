use zenith_gateway::metrics::{render_metrics_text, MetricsCounts, MetricsRegistry};

const EXPECTED_PREFIX: &str = "# HELP zenith_requests_total Total number of HTTP requests processed\n\
# TYPE zenith_requests_total counter\n\
zenith_requests_total 3\n\
# HELP zenith_waf_blocks_total Total number of requests blocked by WAF\n\
# TYPE zenith_waf_blocks_total counter\n\
zenith_waf_blocks_total 2\n\
# HELP zenith_rate_limited_total Total number of requests rejected by Rate Limiter\n\
# TYPE zenith_rate_limited_total counter\n\
zenith_rate_limited_total 1\n\
# HELP zenith_uptime_seconds Gateway uptime in seconds\n\
# TYPE zenith_uptime_seconds gauge\n\
zenith_uptime_seconds ";

#[test]
fn render_reports_every_counter() {
    let mut m = MetricsRegistry::new();
    m.inc_requests();
    m.inc_requests();
    m.inc_requests();
    m.inc_waf_blocks();
    m.inc_waf_blocks();
    m.inc_rate_limited();
    let text = m.render_prometheus();
    assert!(text.starts_with(EXPECTED_PREFIX));
    assert!(text.ends_with('\n'));
    let uptime = &text[EXPECTED_PREFIX.len()..text.len() - 1];
    assert!(uptime.parse::<u64>().is_ok());
}

#[test]
fn render_text_is_exact() {
    let counts = MetricsCounts { requests: 3, waf_blocks: 2, rate_limited: 1 };
    let text = render_metrics_text(counts, 42);
    assert_eq!(text, format!("{}42\n", EXPECTED_PREFIX));
}

#[test]
fn render_text_prints_large_and_zero_values() {
    let counts = MetricsCounts { requests: u64::MAX, waf_blocks: 0, rate_limited: 10 };
    let text = render_metrics_text(counts, 1000);
    assert!(text.contains("zenith_requests_total 18446744073709551615\n"));
    assert!(text.contains("zenith_waf_blocks_total 0\n"));
    assert!(text.contains("zenith_rate_limited_total 10\n"));
    assert!(text.ends_with("zenith_uptime_seconds 1000\n"));
}

#[test]
fn fresh_registry_renders_zeros() {
    let mut m = MetricsRegistry::default();
    let text = m.render_prometheus();
    assert!(text.contains("zenith_requests_total 0\n"));
    assert!(text.contains("zenith_waf_blocks_total 0\n"));
    assert!(text.contains("zenith_rate_limited_total 0\n"));
}

#[test]
fn later_rendering_never_shows_less() {
    let mut m = MetricsRegistry::new();
    let first = m.render_prometheus();
    m.inc_requests();
    m.inc_rate_limited();
    let second = m.render_prometheus();
    let uptime = |text: &str| -> u64 {
        let line = text.lines().last().unwrap();
        line.trim_start_matches("zenith_uptime_seconds ").parse().unwrap()
    };
    assert!(uptime(&second) >= uptime(&first));
    assert!(first.contains("zenith_requests_total 0\n"));
    assert!(second.contains("zenith_requests_total 1\n"));
    assert!(second.contains("zenith_waf_blocks_total 0\n"));
    assert!(second.contains("zenith_rate_limited_total 1\n"));
}
