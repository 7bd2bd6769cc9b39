use tokencamp::metrics::Metrics;

#[test]
fn renders_prometheus_text() {
    let mut m = Metrics::new();
    m.requests_total = 12;
    m.errors_total = 3;
    m.active_connections = 1;
    let text = m.render();
    assert!(text.starts_with("# HELP tokencamp_requests_total Total requests\n"));
    assert!(text.contains("\ntokencamp_requests_total 12\n"));
    assert!(text.contains("\ntokencamp_requests_streaming_total 0\n"));
    assert!(text.contains("\ntokencamp_errors_total 3\n"));
    assert!(text.contains("\ntokencamp_rate_limited_total 0\n"));
    assert!(text.contains("# TYPE tokencamp_active_connections gauge\ntokencamp_active_connections 1\n"));
    assert!(text.ends_with("tokencamp_active_connections 1\n"));
    assert_eq!(text.lines().count(), 15);
}

#[test]
fn fresh_metrics_are_zero() {
    let text = Metrics::new().render();
    assert!(text.contains("tokencamp_requests_total 0\n"));
    assert!(text.contains("tokencamp_active_connections 0\n"));
}
