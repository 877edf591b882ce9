use dgmon::order::{sort_by_time, sorted_unique, text_less};
use dgmon::promapi::{label_names, label_values, metric_map, validate_batch, BatchError};

fn pairs(v: &[(&str, &str)]) -> Vec<(String, String)> {
    v.iter().map(|(a, b)| (a.to_string(), b.to_string())).collect()
}

fn strings(v: &[&str]) -> Vec<String> {
    v.iter().map(|s| s.to_string()).collect()
}

#[test]
fn metric_map_sorted_with_name() {
    let m = metric_map("dgmon_gpu_temp_c", &pairs(&[("uuid", "u"), ("hostname", "h"), ("gpu", "0")]));
    assert_eq!(
        m,
        pairs(&[("__name__", "dgmon_gpu_temp_c"), ("gpu", "0"), ("hostname", "h"), ("uuid", "u")])
    );
}

#[test]
fn metric_map_later_label_wins() {
    let m = metric_map("x", &pairs(&[("a", "1"), ("a", "2"), ("__name__", "y")]));
    assert_eq!(m, pairs(&[("__name__", "y"), ("a", "2")]));
    assert_eq!(metric_map("only", &vec![]), pairs(&[("__name__", "only")]));
}

#[test]
fn label_names_include_name_label() {
    let series = vec![pairs(&[("hostname", "a"), ("gpu", "0")]), pairs(&[("hostname", "b"), ("cluster", "c")])];
    assert_eq!(label_names(&series), strings(&["__name__", "cluster", "gpu", "hostname"]));
    assert_eq!(label_names(&vec![]), strings(&["__name__"]));
}

#[test]
fn label_values_sorted_unique() {
    let series = vec![
        pairs(&[("hostname", "b"), ("gpu", "0")]),
        pairs(&[("hostname", "a")]),
        pairs(&[("hostname", "b")]),
    ];
    assert_eq!(label_values(&series, "hostname"), strings(&["a", "b"]));
    assert_eq!(label_values(&series, "gpu"), strings(&["0"]));
    assert!(label_values(&series, "rack").is_empty());
}

#[test]
fn batch_validation() {
    assert!(matches!(validate_batch(&vec![]), Err(BatchError::MissingQueries)));
    assert!(validate_batch(&strings(&["a", "b"])).is_ok());
    match validate_batch(&strings(&["a", "b", "a", "b"])) {
        Err(BatchError::DuplicateId(id)) => assert_eq!(id, "a"),
        _ => panic!("expected a duplicate id"),
    }
    match validate_batch(&strings(&["x", "y", "y", "x"])) {
        Err(e) => assert_eq!(e.message(), "duplicate query id 'y'"),
        _ => panic!("expected a duplicate id"),
    }
    assert_eq!(BatchError::MissingQueries.message(), "missing 'queries' array");
}

#[test]
fn sorted_unique_names() {
    let v = strings(&["gpu", "Zeta", "a", "gpu", "", "ab"]);
    assert_eq!(sorted_unique(&v), strings(&["", "Zeta", "a", "ab", "gpu"]));
    assert!(sorted_unique(&vec![]).is_empty());
}

#[test]
fn text_order_is_string_order() {
    let cases = [("a", "b"), ("a", "ab"), ("B", "a"), ("", "a"), ("ab", "a"), ("é", "z"), ("same", "same")];
    for (a, b) in cases {
        let ac: Vec<char> = a.chars().collect();
        let bc: Vec<char> = b.chars().collect();
        assert_eq!(text_less(&ac, &bc), a < b, "{a} < {b}");
    }
}

#[test]
fn sort_by_time_is_stable() {
    let pts = vec![(3i64, 'a'), (1, 'b'), (3, 'c'), (2, 'd'), (1, 'e')];
    assert_eq!(sort_by_time(&pts), vec![(1, 'b'), (1, 'e'), (2, 'd'), (3, 'a'), (3, 'c')]);
    let empty: Vec<(i64, u8)> = vec![];
    assert!(sort_by_time(&empty).is_empty());
}
