use dgmon::metric_name::{sanitize_metric_name, strip_engine_prefix};

#[test]
fn sanitize_replaces_invalid_chars() {
    assert_eq!(sanitize_metric_name("vllm:num_requests_running"), "dgmon_inference_num_requests_running");
    assert_eq!(sanitize_metric_name("sglang:num_requests_waiting"), "dgmon_inference_num_requests_waiting");
    assert_eq!(
        sanitize_metric_name("vllm:time_to_first_token_seconds_bucket{le=\"0.01\"}"),
        "dgmon_inference_time_to_first_token_seconds_bucket_le__0_01__"
    );
}

#[test]
fn sanitize_handles_leading_digits() {
    assert_eq!(sanitize_metric_name("123abc"), "dgmon_inference_123abc");
}

#[test]
fn sanitize_handles_empty() {
    assert_eq!(sanitize_metric_name(""), "dgmon_inference_");
}

#[test]
fn strip_engine_prefix_removes_known_prefixes() {
    assert_eq!(strip_engine_prefix("vllm:foo"), "foo");
    assert_eq!(strip_engine_prefix("sglang:bar"), "bar");
    assert_eq!(strip_engine_prefix("no_prefix"), "no_prefix");
}

#[test]
fn strip_engine_prefix_strips_once() {
    assert_eq!(strip_engine_prefix("vllm:sglang:x"), "sglang:x");
    assert_eq!(strip_engine_prefix("other:vllm:x"), "other:vllm:x");
    assert_eq!(strip_engine_prefix("vllm:"), "");
}

#[test]
fn sanitize_keeps_colons_out_of_names() {
    // Colons other than the engine prefix become underscores.
    assert_eq!(sanitize_metric_name("custom:metric-name"), "dgmon_inference_custom_metric_name");
    assert_eq!(sanitize_metric_name("é"), "dgmon_inference__");
}

#[test]
fn sanitized_names_are_valid_prometheus_names() {
    for raw in ["vllm:a.b", "", "9x", "sglang:{}", "ünïcode", "a b\tc"] {
        let s = sanitize_metric_name(raw);
        assert!(s.starts_with("dgmon_inference_"));
        let mut chars = s.chars();
        let first = chars.next().unwrap();
        assert!(first.is_ascii_alphabetic() || first == '_' || first == ':');
        assert!(s.chars().all(|c| c.is_ascii_alphanumeric() || c == '_' || c == ':'));
    }
}
