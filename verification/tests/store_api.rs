use dgmon::api::{
    find_gpu, find_snapshot, gpu_not_found, gpu_summaries, gpu_summary, latest_points, node_not_found,
    node_summaries, not_found,
};
use dgmon::collector::{GpuSample, HostSample, Real32, Real64, Snapshot, Timestamp};
use dgmon::store::NodeStore;

fn gpu(index: u32, uuid: &str) -> GpuSample {
    GpuSample {
        index,
        uuid: uuid.to_string(),
        name: "NVIDIA H200".to_string(),
        utilization_gpu: 40 + index,
        utilization_memory: 50,
        temperature_c: 55,
        power_w: Some(Real32 { bits: 350.0f32.to_bits() }),
        power_limit_w: Some(Real32 { bits: 700.0f32.to_bits() }),
        memory_used_mb: Some(40_000),
        memory_total_mb: Some(140_000),
        fan_speed_pct: Some(60),
        pstate: format!("P{index}"),
        sm_clock_mhz: None,
        mem_clock_mhz: None,
        sm_clock_max_mhz: None,
        mem_clock_max_mhz: None,
        mem_temp_c: None,
        pcie_link_gen: None,
        pcie_link_gen_max: None,
        pcie_link_width: None,
        pcie_link_width_max: None,
        throttle_active: 0,
        throttle_hw_thermal: false,
        throttle_sw_thermal: false,
        throttle_hw_slowdown: false,
        throttle_power_brake: false,
    }
}

fn snapshot_of(host: &str, secs: i64, gpus: Vec<GpuSample>) -> Snapshot {
    Snapshot {
        timestamp: Timestamp { secs, nanos: 0 },
        host: HostSample {
            hostname: host.to_string(),
            cpu_usage_pct: Real32 { bits: 1.5f32.to_bits() },
            memory_used_mb: 1,
            memory_total_mb: 2,
            disk_used_gb: Real64 { bits: 3.0f64.to_bits() },
            disk_total_gb: Real64 { bits: 4.0f64.to_bits() },
            network_rx_bytes: 5,
            network_tx_bytes: 6,
            uptime_seconds: 7,
            cpu_cores: Vec::new(),
            networks: Vec::new(),
        },
        gpus,
        inference: Vec::new(),
        extra: Vec::new(),
    }
}

#[test]
fn store_put_then_get() {
    let mut store = NodeStore::new();
    assert!(store.get("a").is_none());
    store.put("a".to_string(), snapshot_of("a", 10, vec![]));
    assert_eq!(store.get("a").unwrap().timestamp.secs, 10);
    assert!(store.get("b").is_none());
}

#[test]
fn store_latest_snapshot_wins() {
    let mut store = NodeStore::default();
    store.put("a".to_string(), snapshot_of("a", 10, vec![]));
    store.put("b".to_string(), snapshot_of("b", 11, vec![gpu(0, "u0")]));
    store.put("a".to_string(), snapshot_of("a", 12, vec![gpu(0, "u1"), gpu(1, "u2")]));
    assert_eq!(store.get("a").unwrap().timestamp.secs, 12);
    assert_eq!(store.get("b").unwrap().timestamp.secs, 11);
    let all = store.all();
    assert_eq!(all.len(), 2);
    let list = store.node_list();
    assert_eq!(list.len(), 2);
    let a = list.iter().find(|n| n.hostname == "a").unwrap();
    assert_eq!(a.gpus, 2);
    assert_eq!(a.timestamp.secs, 12);
    assert!(store.knows_host("b"));
    assert!(!store.knows_host("c"));
}

#[test]
fn node_summaries_follow_the_store() {
    let mut store = NodeStore::new();
    store.put("n1".to_string(), snapshot_of("n1", 1, vec![gpu(0, "x")]));
    store.put("n2".to_string(), snapshot_of("n2", 2, vec![]));
    let sums = node_summaries(&store);
    assert_eq!(sums.len(), 2);
    let n1 = sums.iter().find(|s| s.hostname == "n1").unwrap();
    assert_eq!(n1.gpus, 1);
    assert_eq!(n1.timestamp.secs, 1);
}

#[test]
fn find_snapshot_by_reported_hostname() {
    let mut store = NodeStore::new();
    // The key and the reported host name may differ; the lookup goes by the
    // reported one.
    store.put("key".to_string(), snapshot_of("reported", 3, vec![]));
    assert!(find_snapshot(&store, "key").is_none());
    assert_eq!(find_snapshot(&store, "reported").unwrap().timestamp.secs, 3);
}

#[test]
fn find_gpu_by_index() {
    let snap = snapshot_of("h", 1, vec![gpu(3, "first"), gpu(1, "second"), gpu(3, "third")]);
    assert_eq!(find_gpu(&snap, 3).unwrap().uuid, "first");
    assert_eq!(find_gpu(&snap, 1).unwrap().uuid, "second");
    assert!(find_gpu(&snap, 0).is_none());
}

#[test]
fn gpu_summaries_copy_fields() {
    let snap = snapshot_of("h", 1, vec![gpu(0, "a"), gpu(1, "b")]);
    let sums = gpu_summaries(&snap);
    assert_eq!(sums.len(), 2);
    assert_eq!(sums[1].index, 1);
    assert_eq!(sums[1].uuid, "b");
    assert_eq!(sums[1].utilization_gpu, 41);
    assert_eq!(sums[1].pstate, "P1");
    let one = gpu_summary(&snap.gpus[0]);
    assert_eq!(one.name, "NVIDIA H200");
    assert_eq!(one.power_w.map(|p| f32::from_bits(p.bits)), Some(350.0));
    assert_eq!(one.memory_total_mb, Some(140_000));
    assert_eq!(one.fan_speed_pct, Some(60));
}

#[test]
fn latest_points_keep_last_of_nonempty_series() {
    let series = vec![
        (vec![("hostname".to_string(), "a".to_string())], vec![(1i64, 10u32), (2, 20)]),
        (vec![("hostname".to_string(), "b".to_string())], vec![]),
        (vec![("hostname".to_string(), "c".to_string())], vec![(5, 7)]),
    ];
    let latest = latest_points(series);
    assert_eq!(latest.len(), 2);
    assert_eq!(latest[0].0[0].1, "a");
    assert_eq!(latest[0].1, (2, 20));
    assert_eq!(latest[1].0[0].1, "c");
    assert_eq!(latest[1].1, (5, 7));
}

#[test]
fn latest_point_of_time_ordered_series_is_the_latest() {
    let series = vec![
        (vec![("gpu".to_string(), "0".to_string())], vec![(100i64, 1u64), (200, 2), (200, 3), (350, 4)]),
        (vec![("gpu".to_string(), "1".to_string())], vec![(90, 9)]),
    ];
    let max_times: Vec<i64> = series.iter().map(|(_, ps)| ps.iter().map(|p| p.0).max().unwrap()).collect();
    let latest = latest_points(series);
    assert_eq!(latest.len(), 2);
    assert_eq!(latest[0].1, (350, 4));
    assert_eq!(latest[1].1, (90, 9));
    assert_eq!(vec![latest[0].1 .0, latest[1].1 .0], max_times);
}

#[test]
fn error_bodies() {
    let e = node_not_found("spark-9");
    assert_eq!(e.error.code, "node_not_found");
    assert_eq!(e.error.message, "no node named 'spark-9'");
    let e = gpu_not_found("spark-9", 12);
    assert_eq!(e.error.code, "gpu_not_found");
    assert_eq!(e.error.message, "node 'spark-9' has no GPU with index 12");
    let e = not_found("x", "y".to_string());
    assert_eq!(e.error.code, "x");
    assert_eq!(e.error.message, "y");
}

#[test]
fn timestamp_millis() {
    let t = Timestamp { secs: 1_700_000_000, nanos: 123_456_789 };
    assert_eq!(t.millis(), 1_700_000_000_123);
    let t = Timestamp { secs: -1, nanos: 500_000_000 };
    assert_eq!(t.millis(), -500);
}

#[test]
fn hosts_listed_in_order_of_first_report() {
    let mut store = NodeStore::new();
    store.put("b".to_string(), snapshot_of("b", 1, vec![]));
    store.put("a".to_string(), snapshot_of("a", 2, vec![]));
    store.put("b".to_string(), snapshot_of("b", 3, vec![]));
    let list = store.node_list();
    let names: Vec<&str> = list.iter().map(|n| n.hostname.as_str()).collect();
    assert_eq!(names, vec!["b", "a"]);
    assert_eq!(list[0].timestamp.secs, 3);
    let all = store.all();
    assert_eq!(all[0].host.hostname, "b");
    assert_eq!(all[1].host.hostname, "a");
}
