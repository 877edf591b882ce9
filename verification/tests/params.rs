use dgmon::params::{history_query, param_or, plan_query, QueryPlan};

#[test]
fn numeric_parameters_default() {
    assert_eq!(param_or(Some("1500"), 0), 1500);
    assert_eq!(param_or(Some("-20"), 0), -20);
    assert_eq!(param_or(Some("abc"), 7), 7);
    assert_eq!(param_or(None, 9), 9);
}

#[test]
fn history_requires_metric_and_host() {
    assert!(history_query(None, Some("h"), None, None, 100).is_none());
    assert!(history_query(Some("m"), None, None, None, 100).is_none());
    assert!(history_query(Some(""), Some("h"), None, None, 100).is_none());
    assert!(history_query(Some("m"), Some(""), None, None, 100).is_none());
    let q = history_query(Some("dgmon_gpu_temp_c"), Some("spark"), Some("10"), None, 100).unwrap();
    assert_eq!(q.metric, "dgmon_gpu_temp_c");
    assert_eq!(q.hostname, "spark");
    assert_eq!(q.start_ms, 10);
    assert_eq!(q.end_ms, 100);
    let q = history_query(Some("m"), Some("h"), Some("x"), Some("50"), 100).unwrap();
    assert_eq!(q.start_ms, 0);
    assert_eq!(q.end_ms, 50);
}

#[test]
fn query_plans() {
    assert!(plan_query(None, None, None, None, None, 1).is_none());
    assert!(plan_query(Some(""), None, None, None, None, 1).is_none());
    match plan_query(Some("up"), None, None, None, None, 1000).unwrap() {
        QueryPlan::Instant { expr, time_ms } => {
            assert_eq!(expr, "up");
            assert_eq!(time_ms, 1000);
        }
        other => panic!("unexpected {other:?}"),
    }
    match plan_query(Some("up"), Some("5"), None, None, Some("10"), 1000).unwrap() {
        QueryPlan::Instant { time_ms, .. } => assert_eq!(time_ms, 5),
        other => panic!("unexpected {other:?}"),
    }
    match plan_query(Some("rate(x[1m])"), Some("5"), Some("100"), None, None, 1000).unwrap() {
        QueryPlan::Range { expr, start_ms, end_ms, step_ms } => {
            assert_eq!(expr, "rate(x[1m])");
            assert_eq!(start_ms, 100);
            assert_eq!(end_ms, 1000);
            assert_eq!(step_ms, 5000);
        }
        other => panic!("unexpected {other:?}"),
    }
    match plan_query(Some("x"), None, None, Some("bad"), Some("250"), 1000).unwrap() {
        QueryPlan::Range { start_ms, end_ms, step_ms, .. } => {
            assert_eq!(start_ms, 0);
            assert_eq!(end_ms, 1000);
            assert_eq!(step_ms, 250);
        }
        other => panic!("unexpected {other:?}"),
    }
}
