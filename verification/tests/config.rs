use dgmon::collector::{HostSample, NetSample, Real32, Real64, Snapshot, Timestamp};
use dgmon::config::{
    apply_agent_config, apply_role_overrides, default_interval, lookup_label, resolve_data_dir,
    resolve_listen, set_label, CollectorConfig, ConfigError,
};

fn net(name: &str, role: &str) -> NetSample {
    NetSample {
        interface: name.to_string(),
        role: role.to_string(),
        rx_bytes: 1,
        tx_bytes: 2,
        rx_packets: 3,
        tx_packets: 4,
        speed_mbps: None,
        up: true,
    }
}

fn snapshot_with(nets: Vec<NetSample>, extra: Vec<(String, String)>) -> Snapshot {
    Snapshot {
        timestamp: Timestamp { secs: 5, nanos: 6 },
        host: HostSample {
            hostname: "collected".to_string(),
            cpu_usage_pct: Real32 { bits: 0 },
            memory_used_mb: 0,
            memory_total_mb: 0,
            disk_used_gb: Real64 { bits: 0 },
            disk_total_gb: Real64 { bits: 0 },
            network_rx_bytes: 0,
            network_tx_bytes: 0,
            uptime_seconds: 0,
            cpu_cores: Vec::new(),
            networks: nets,
        },
        gpus: Vec::new(),
        inference: Vec::new(),
        extra,
    }
}

fn pairs(v: &[(&str, &str)]) -> Vec<(String, String)> {
    v.iter().map(|(a, b)| (a.to_string(), b.to_string())).collect()
}

#[test]
fn collector_config_defaults() {
    let c = CollectorConfig::default();
    assert_eq!(c.server_url, "");
    assert_eq!(c.interval_secs, 5);
    assert_eq!(default_interval(), 5);
    assert!(!c.mock);
    assert!(c.hostname.is_none());
    assert!(c.labels.is_empty());
    assert!(c.inference_servers.is_empty());
    assert!(c.interface_role_overrides.is_empty());
    assert!(c.data_dir.is_none());
    assert!(c.listen.is_none());
}

#[test]
fn data_dir_resolution() {
    assert_eq!(resolve_data_dir(Some("/cli".to_string()), Some("/cfg")).unwrap(), "/cli");
    assert_eq!(resolve_data_dir(None, Some("/cfg")).unwrap(), "/cfg");
    let e = resolve_data_dir(None, None).unwrap_err();
    assert_eq!(e, ConfigError::MissingDataDir);
    assert_eq!(
        e.message(),
        "no data directory given; pass --data-dir <path> or set data_dir in the config file"
    );
}

#[test]
fn listen_resolution() {
    assert_eq!(resolve_listen(Some("1.2.3.4:1".to_string()), Some("5.6.7.8:2")), "1.2.3.4:1");
    assert_eq!(resolve_listen(None, Some("5.6.7.8:2")), "5.6.7.8:2");
    assert_eq!(resolve_listen(None, None), "0.0.0.0:9401");
}

#[test]
fn label_lookup_and_update() {
    let mut labels = pairs(&[("cluster", "a"), ("rack", "r1")]);
    assert_eq!(lookup_label(&labels, &"rack".to_string()).as_deref(), Some("r1"));
    assert!(lookup_label(&labels, &"zone".to_string()).is_none());
    set_label(&mut labels, &"cluster".to_string(), &"b".to_string());
    set_label(&mut labels, &"zone".to_string(), &"z".to_string());
    assert_eq!(lookup_label(&labels, &"cluster".to_string()).as_deref(), Some("b"));
    assert_eq!(lookup_label(&labels, &"zone".to_string()).as_deref(), Some("z"));
    assert_eq!(labels.iter().filter(|(k, _)| k == "cluster").count(), 1);
}

#[test]
fn role_overrides_apply_by_interface() {
    let mut snap = snapshot_with(vec![net("eth0", "main"), net("enp1s0f0np0", "cluster")], vec![]);
    apply_role_overrides(&mut snap, &pairs(&[("eth0", "cluster"), ("wlan0", "other")]));
    assert_eq!(snap.host.networks[0].role, "cluster");
    assert_eq!(snap.host.networks[1].role, "cluster");
    assert_eq!(snap.host.networks[0].interface, "eth0");
    assert_eq!(snap.host.networks[0].rx_bytes, 1);
}

#[test]
fn agent_config_overrides_hostname_and_merges_labels() {
    let mut snap = snapshot_with(vec![], pairs(&[("rack", "old"), ("site", "s")]));
    apply_agent_config(&mut snap, &Some("node1".to_string()), &pairs(&[("rack", "r1"), ("cluster", "c")]));
    assert_eq!(snap.host.hostname, "node1");
    assert_eq!(lookup_label(&snap.extra, &"rack".to_string()).as_deref(), Some("r1"));
    assert_eq!(lookup_label(&snap.extra, &"site".to_string()).as_deref(), Some("s"));
    assert_eq!(lookup_label(&snap.extra, &"cluster".to_string()).as_deref(), Some("c"));
    assert_eq!(snap.extra.len(), 3);
    let mut other = snapshot_with(vec![], vec![]);
    apply_agent_config(&mut other, &None, &vec![]);
    assert_eq!(other.host.hostname, "collected");
    assert!(other.extra.is_empty());
}

#[test]
fn agent_config_keeps_label_names_distinct() {
    let mut snap = snapshot_with(vec![], pairs(&[("rack", "old")]));
    apply_agent_config(
        &mut snap,
        &None,
        &pairs(&[("rack", "r1"), ("zone", "z"), ("rack", "r2"), ("zone", "z2")]),
    );
    let names: Vec<&str> = snap.extra.iter().map(|(k, _)| k.as_str()).collect();
    assert_eq!(names, vec!["rack", "zone"]);
    assert_eq!(lookup_label(&snap.extra, &"rack".to_string()).as_deref(), Some("r2"));
    assert_eq!(lookup_label(&snap.extra, &"zone".to_string()).as_deref(), Some("z2"));
}
