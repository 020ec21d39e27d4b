use quansio_server::observability::bundle::{DiagnosticBundle, MetricsRegistry};
use quansio_server::observability::redact::{
    canaries_with, redact_text, redact_text_checked, CANARY_PLACEHOLDER, DEFAULT_SECRET_CANARY,
};
use quansio_server::observability::trace::{continue_trace, Correlation, JsonLog, Span};

#[test]
fn canary_and_secrets_are_stripped() {
    let raw = format!("token Bearer abc.def sk-live-123 user@example.com canary={DEFAULT_SECRET_CANARY}");
    let redacted = redact_text(&raw, &canaries_with(None));
    assert!(!redacted.contains(DEFAULT_SECRET_CANARY));
    assert!(!redacted.contains("Bearer abc"));
    assert!(!redacted.contains("sk-live"));
    assert!(!redacted.contains("user@example.com"));
    assert!(redacted.contains(CANARY_PLACEHOLDER));
    assert!(redacted.contains("[REDACTED:bearer]"));
    assert!(redacted.contains("[REDACTED:secret]"));
    assert!(redacted.contains("[REDACTED:email]"));
}

#[test]
fn a_configured_canary_is_scrubbed_too() {
    let canaries = canaries_with(Some("prod-canary-42".to_string()));
    assert_eq!(canaries.len(), 2);
    let redacted = redact_text("leaked prod-canary-42 here", &canaries);
    assert_eq!(redacted, format!("leaked {CANARY_PLACEHOLDER} here"));
    assert_eq!(canaries_with(Some(String::new())).len(), 1);
    assert_eq!(canaries_with(Some(DEFAULT_SECRET_CANARY.to_string())).len(), 1);
}

#[test]
fn text_without_secrets_is_unchanged() {
    let text = "plain text, nothing to hide: 42 apples";
    assert_eq!(redact_text(text, &canaries_with(None)), text);
    assert_eq!(redact_text_checked(text, &canaries_with(None)), Some(text.to_string()));
    assert_eq!(redact_text("", &canaries_with(None)), "");
}

#[test]
fn each_token_shape_has_its_own_placeholder() {
    let canaries = canaries_with(None);
    assert_eq!(redact_text("auth Bearer xyz", &canaries), "auth [REDACTED:bearer]");
    assert_eq!(redact_text("key ghp_abc123 end", &canaries), "key [REDACTED:secret] end");
    assert_eq!(redact_text("AKIAABCDEF", &canaries), "[REDACTED:secret]");
    assert_eq!(redact_text("mail a.b@c.io now", &canaries), "mail [REDACTED:email] now");
}

#[test]
fn a_trace_keeps_its_correlation_across_planes() {
    let root = Correlation::start("cor_1".to_string(), "tn_1".to_string(), Some("run_1".to_string()));
    assert_eq!(root.service, "runtime");
    let next = continue_trace(&root, "intelligence").expect("known plane");
    assert_eq!(next.correlation_id, "cor_1");
    assert_eq!(next.run_id, Some("run_1".to_string()));
    assert_eq!(next.service, "intelligence");
    assert_eq!(continue_trace(&root, "mainframe"), Err("mainframe is not a Quansio plane".to_string()));
    assert!(Correlation::valid_service("desktop"));
}

#[test]
fn spans_and_logs_are_redacted_and_parented() {
    let canaries = canaries_with(None);
    let root = Correlation::start("cor_1".to_string(), "tn_1".to_string(), None);
    let span = Span::open(&root, "sp_1".to_string(), "call Bearer abc".to_string(), &canaries);
    assert_eq!(span.name, "call [REDACTED:bearer]");
    assert_eq!(span.parent_span_id, None);
    let child = span.child(&root, "sp_2".to_string(), "step".to_string(), &canaries);
    assert_eq!(child.parent_span_id, Some("sp_1".to_string()));
    let log = JsonLog::emit(&root, "info", "sent to user@example.com", &canaries);
    assert_eq!(log.msg, "sent to [REDACTED:email]");
    assert_eq!(log.level, "info");
}

#[test]
fn counters_accumulate_and_render_as_prometheus_text() {
    let canaries = canaries_with(None);
    let mut metrics = MetricsRegistry::default();
    metrics.incr("runs_total", "ok", &canaries);
    metrics.incr("runs_total", "ok", &canaries);
    metrics.incr("runs_total", "failed", &canaries);
    assert_eq!(
        metrics.prometheus(),
        "# TYPE runs_total counter\nruns_total{label=\"ok\"} 2\n# TYPE runs_total counter\nruns_total{label=\"failed\"} 1\n"
    );
}

#[test]
fn a_bundle_over_its_cap_drops_logs_first_then_spans() {
    let canaries = canaries_with(None);
    let root = Correlation::start("cor_1".to_string(), "tn_1".to_string(), None);
    let span = Span::open(&root, "sp_1".to_string(), "root".to_string(), &canaries);
    let logs = vec![JsonLog::emit(&root, "info", "a", &canaries), JsonLog::emit(&root, "info", "b", &canaries)];
    let metrics = MetricsRegistry::default();
    let mut bundle = DiagnosticBundle::assemble("cor_1".to_string(), vec![span], logs, &metrics, &canaries);
    assert!(!bundle.truncated);
    assert!(!bundle.trim_once(10, 100), "under the cap nothing is dropped");
    assert!(bundle.trim_once(200, 100));
    assert!(bundle.truncated);
    assert_eq!(bundle.logs.len(), 1);
    assert_eq!(bundle.spans.len(), 1);
    assert!(bundle.trim_once(200, 100));
    assert_eq!(bundle.spans.len(), 0, "with logs no longer outnumbering spans, a span goes");
    assert_eq!(bundle.logs.len(), 1);
}

#[test]
fn an_exported_bundle_fits_its_cap_and_keeps_its_json_shape() {
    let canaries = canaries_with(None);
    let root = Correlation::start("cor_1".to_string(), "tn_1".to_string(), None);
    let span = Span::open(&root, "sp_1".to_string(), "root".to_string(), &canaries);
    let child = span.child(&root, "sp_2".to_string(), "step".to_string(), &canaries);
    let logs: Vec<JsonLog> = (0..5).map(|i| JsonLog::emit(&root, "info", &format!("line {i}"), &canaries)).collect();
    let mut metrics = MetricsRegistry::default();
    metrics.incr("runs_total", "ok", &canaries);
    let full = DiagnosticBundle::export("cor_1".to_string(), vec![span.clone(), child.clone()], logs.clone(), &metrics, 1 << 20, &canaries);
    assert!(!full.truncated);
    assert_eq!(full.logs.len(), 5);
    let json = full.to_json();
    assert_eq!(json.len(), full.encoded_len());
    assert!(json.starts_with("{\"correlation_id\":\"cor_1\",\"spans\":[{\"span_id\":\"sp_1\",\"parent_span_id\":null,"));
    assert!(json.ends_with(",\"truncated\":false}"));
    let parsed: serde_json::Value = serde_json::from_str(&json).expect("valid JSON");
    assert_eq!(parsed["logs"][0]["msg"], serde_json::Value::String("line 0".to_string()));
    assert_eq!(parsed["spans"][1]["parent_span_id"], serde_json::Value::String("sp_1".to_string()));
    assert_eq!(parsed.to_string().len(), json.len());
    let cap = full.encoded_len() - 1;
    let bounded = DiagnosticBundle::export("cor_1".to_string(), vec![span, child], logs, &metrics, cap, &canaries);
    assert!(bounded.truncated);
    assert!(bounded.encoded_len() <= cap);
    assert_eq!(bounded.logs.len(), 4, "one log is enough to fit");
    assert_eq!(bounded.spans.len(), 2);
    assert_eq!(
        JsonLog::emit(&root, "warn", "x", &canaries).to_json(),
        "{\"correlation_id\":\"cor_1\",\"level\":\"warn\",\"msg\":\"x\",\"service\":\"runtime\"}"
    );
}

#[test]
fn non_ascii_text_passes_through_unchanged() {
    let canaries = canaries_with(None);
    assert_eq!(redact_text("café résumé – 東京", &canaries), "café résumé – 東京");
    assert_eq!(redact_text("naïve a.b@c.io ✓", &canaries), "naïve [REDACTED:email] ✓");
    let domain = "d".repeat(19);
    let cut_inside = format!("ééa@{domain}@x.io");
    assert_eq!(redact_text_checked(&cut_inside, &canaries), None);
}
