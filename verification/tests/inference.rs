use dgmon::inference::{
    add_manual_targets, base_url, container_engine, container_target, dedup_targets,
    detect_engine_from_content, detect_engine_from_url, extract_master_addr, extract_port_from_command,
    extract_published_port, keep_last_per_name, listening_port_in_tcp_table, netstat_targets,
    process_engine, prom_candidates, InferenceTarget,
};

fn strings(v: &[&str]) -> Vec<String> {
    v.iter().map(|s| s.to_string()).collect()
}

fn target(url: &str, engine: &str) -> InferenceTarget {
    InferenceTarget { base_url: url.to_string(), engine: engine.to_string() }
}

#[test]
fn engine_from_url() {
    assert_eq!(detect_engine_from_url("http://VLLM-host:8000"), "vllm");
    assert_eq!(detect_engine_from_url("http://127.0.0.1:30000"), "sglang");
}

#[test]
fn engine_from_content() {
    assert_eq!(detect_engine_from_content("# HELP vllm:num_requests_running x\n", "sglang"), "vllm");
    assert_eq!(detect_engine_from_content("SGLang:token_usage 0.5\n", "vllm"), "sglang");
    assert_eq!(detect_engine_from_content("process_cpu_seconds_total 1\n", "vllm"), "vllm");
    assert_eq!(detect_engine_from_content("", "sglang"), "sglang");
}

#[test]
fn engine_of_containers_and_processes() {
    assert_eq!(container_engine("/vllm-server", "nvcr.io/nvidia/vllm:25.09").as_deref(), Some("vllm"));
    assert_eq!(container_engine("/srv", "lmsysorg/SGLang:latest").as_deref(), Some("sglang"));
    assert_eq!(container_engine("/sglang-vllm", "x").as_deref(), Some("vllm"));
    assert!(container_engine("/postgres", "postgres:16").is_none());
    assert_eq!(process_engine("python3", &strings(&["-m", "sglang.launch_server"])).as_deref(), Some("sglang"));
    assert_eq!(process_engine("VLLM", &strings(&[])).as_deref(), Some("vllm"));
    assert!(process_engine("bash", &strings(&["-c", "sleep 1"])).is_none());
}

#[test]
fn base_url_format() {
    assert_eq!(base_url("127.0.0.1", 8000), "http://127.0.0.1:8000");
    assert_eq!(base_url("10.0.0.2", 0), "http://10.0.0.2:0");
}

#[test]
fn published_port_first_parseable() {
    let ports = vec![None, Some("abc".to_string()), Some("30000".to_string()), Some("8000".to_string())];
    assert_eq!(extract_published_port(&ports), Some(30000));
    assert_eq!(extract_published_port(&vec![Some("70000".to_string())]), None);
    assert_eq!(extract_published_port(&vec![]), None);
}

#[test]
fn port_from_command() {
    let direct = strings(&["vllm", "serve", "m", "--port", "8080"]);
    assert_eq!(extract_port_from_command(Some(&direct)), Some(8080));
    let wrapped = strings(&["bash", "-c", "vllm serve m --port 9000 --tp 2"]);
    assert_eq!(extract_port_from_command(Some(&wrapped)), Some(9000));
    let bad = strings(&["--port", "x"]);
    assert_eq!(extract_port_from_command(Some(&bad)), Some(8000));
    let none = strings(&["serve"]);
    assert_eq!(extract_port_from_command(Some(&none)), Some(8000));
    assert_eq!(extract_port_from_command(None), None);
    let later = strings(&["--port", "x", "--port", "7000"]);
    assert_eq!(extract_port_from_command(Some(&later)), Some(7000));
}

#[test]
fn master_addr_from_command() {
    let direct = strings(&["vllm", "--master-addr", "10.0.0.5"]);
    assert_eq!(extract_master_addr(Some(&direct)).as_deref(), Some("10.0.0.5"));
    let last = strings(&["vllm", "--master-addr"]);
    assert_eq!(extract_master_addr(Some(&last)), None);
    let wrapped = strings(&["bash", "-c", "vllm serve --master-addr 10.0.0.9 --port 1"]);
    assert_eq!(extract_master_addr(Some(&wrapped)).as_deref(), Some("10.0.0.9"));
    assert_eq!(extract_master_addr(Some(&strings(&["serve"]))), None);
    assert_eq!(extract_master_addr(None), None);
}

#[test]
fn container_targets() {
    let t = container_target("vllm", Some(30000), Some("bridge"), None).unwrap();
    assert_eq!(t.base_url, "http://127.0.0.1:30000");
    assert_eq!(t.engine, "vllm");
    let cmd = strings(&["bash", "-c", "vllm serve --master-addr 10.0.0.9 --port 8100"]);
    let t = container_target("vllm", None, Some("host"), Some(&cmd)).unwrap();
    assert_eq!(t.base_url, "http://10.0.0.9:8100");
    let t = container_target("sglang", None, Some("host"), None).unwrap();
    assert_eq!(t.base_url, "http://127.0.0.1:8000");
    assert!(container_target("sglang", None, Some("bridge"), Some(&cmd)).is_none());
    assert!(container_target("sglang", None, None, None).is_none());
}

#[test]
fn tcp_table_listening_port() {
    let table = "  sl  local_address rem_address   st tx_queue rx_queue\n\
   0: 00000000:1F90 00000000:0000 0A 00000000:00000000 00:00000000 00000000\n\
   1: 0100007F:7530 00000000:0000 0A 00000000:00000000 00:00000000 00000000\n";
    assert_eq!(listening_port_in_tcp_table(table), Some(8080));
    let established = "hdr\n   0: 00000000:1F90 0100007F:0000 01 x\n";
    assert_eq!(listening_port_in_tcp_table(established), None);
    let header_only = "   0: 00000000:1F90 00000000:0000 0A\n";
    assert_eq!(listening_port_in_tcp_table(header_only), None);
    assert_eq!(listening_port_in_tcp_table(""), None);
}

#[test]
fn netstat_output_targets() {
    let out = "Active Internet connections (only servers)\n\
Proto Recv-Q Send-Q Local Address Foreign Address State PID/Program name\n\
tcp 0 0 0.0.0.0:8000 0.0.0.0:* LISTEN 123/python3-VLLM\n\
tcp 0 0 127.0.0.1:5432 0.0.0.0:* LISTEN 9/postgres\n\
tcp6 0 0 :::30000 :::* LISTEN 77/sglang\n";
    let ts = netstat_targets(out);
    assert_eq!(ts.len(), 2);
    assert_eq!(ts[0].base_url, "http://127.0.0.1:8000");
    assert_eq!(ts[0].engine, "vllm");
    assert_eq!(ts[1].base_url, "http://127.0.0.1:30000");
    assert_eq!(ts[1].engine, "sglang");
    assert!(netstat_targets("tcp 0 0 0.0.0.0:8000 vllm\n").is_empty());
}

#[test]
fn manual_targets_and_dedup() {
    let mut ts = vec![target("http://127.0.0.1:8000", "vllm")];
    add_manual_targets(&mut ts, &strings(&["http://127.0.0.1:8000", "http://h:1"]));
    assert_eq!(ts.len(), 3);
    assert_eq!(ts[2].engine, "sglang");
    let d = dedup_targets(ts);
    assert_eq!(d.len(), 2);
    assert_eq!(d[0].base_url, "http://127.0.0.1:8000");
    assert_eq!(d[0].engine, "vllm");
    assert_eq!(d[1].base_url, "http://h:1");
}

#[test]
fn prometheus_text_candidates() {
    let body = "# HELP vllm:num_requests_running Number\n\
# TYPE vllm:num_requests_running gauge\n\
vllm:num_requests_running{model_name=\"m\"} 3.0\n\
\n\
   vllm:kv_cache_usage_perc 0.45  \n\
novalue\n\
{only=\"labels\"} 1\n\
vllm:num_requests_running{model_name=\"n\"} 5\n";
    let c = prom_candidates(body);
    let names: Vec<(&str, &str)> = c.iter().map(|(n, v)| (n.as_str(), v.as_str())).collect();
    assert_eq!(
        names,
        vec![
            ("vllm:num_requests_running", "3.0"),
            ("vllm:kv_cache_usage_perc", "0.45"),
            ("vllm:num_requests_running", "5"),
        ]
    );
}

#[test]
fn last_value_per_name_wins() {
    let pairs = vec![
        ("a".to_string(), 1u32),
        ("b".to_string(), 2),
        ("a".to_string(), 3),
    ];
    let kept = keep_last_per_name(&pairs);
    assert_eq!(kept, vec![("a".to_string(), 3), ("b".to_string(), 2)]);
    assert!(keep_last_per_name::<u32>(&vec![]).is_empty());
}
