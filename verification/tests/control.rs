use dgmon::control::{
    agent_ack, agent_poll, agent_user_agent, command_to_ack, mailbox_ack_url, mailbox_url, server_base, AckAnswer,
    PollAnswer,
};
use dgmon::collector::{HostSample, Real32, Real64, Snapshot, Timestamp};
use dgmon::control::{
    control_nodes, hostname_from_user_agent, post_command, CommandOp, ControlConfig, Mailbox, PostOutcome,
};
use dgmon::store::NodeStore;

fn at(secs: i64) -> Timestamp {
    Timestamp { secs, nanos: 0 }
}

fn snapshot_of(host: &str, gpus: usize) -> Snapshot {
    let mut gs = Vec::new();
    for i in 0..gpus {
        gs.push(dgmon::collector::GpuSample {
            index: i as u32,
            uuid: format!("GPU-{i}"),
            name: "Test GPU".to_string(),
            utilization_gpu: 0,
            utilization_memory: 0,
            temperature_c: 0,
            power_w: None,
            power_limit_w: None,
            memory_used_mb: None,
            memory_total_mb: None,
            fan_speed_pct: None,
            pstate: "P0".to_string(),
            sm_clock_mhz: None,
            mem_clock_mhz: None,
            sm_clock_max_mhz: None,
            mem_clock_max_mhz: None,
            mem_temp_c: None,
            pcie_link_gen: None,
            pcie_link_gen_max: None,
            pcie_link_width: None,
            pcie_link_width_max: None,
            throttle_active: 0,
            throttle_hw_thermal: false,
            throttle_sw_thermal: false,
            throttle_hw_slowdown: false,
            throttle_power_brake: false,
        });
    }
    Snapshot {
        timestamp: Timestamp { secs: 1_700_000_000, nanos: 0 },
        host: HostSample {
            hostname: host.to_string(),
            cpu_usage_pct: Real32 { bits: 0f32.to_bits() },
            memory_used_mb: 0,
            memory_total_mb: 0,
            disk_used_gb: Real64 { bits: 0f64.to_bits() },
            disk_total_gb: Real64 { bits: 0f64.to_bits() },
            network_rx_bytes: 0,
            network_tx_bytes: 0,
            uptime_seconds: 0,
            cpu_cores: Vec::new(),
            networks: Vec::new(),
        },
        gpus: gs,
        inference: Vec::new(),
        extra: Vec::new(),
    }
}

#[test]
fn mailbox_post_poll_ack() {
    let mut mb = Mailbox::new();
    assert!(mb.post("node1", CommandOp::Restart, at(1)));
    assert!(!mb.post("node1", CommandOp::Shutdown, at(1))); // conflict
    let cmd = mb.poll("node1").expect("command should be pending");
    assert_eq!(cmd.op, CommandOp::Restart);
    assert_eq!(cmd.issued_at, at(1));
    assert!(mb.ack("node1"));
    assert!(!mb.ack("node1")); // already cleared
    assert!(mb.poll("node1").is_none());
}

#[test]
fn mailbox_multiple_hosts() {
    let mut mb = Mailbox::new();
    assert!(mb.post("a", CommandOp::Restart, at(1)));
    assert!(mb.post("b", CommandOp::Shutdown, at(1)));
    assert_eq!(mb.poll("a").unwrap().op, CommandOp::Restart);
    assert_eq!(mb.poll("b").unwrap().op, CommandOp::Shutdown);
    assert_eq!(mb.all().len(), 2);
}

#[test]
fn command_op_shell_command() {
    assert_eq!(CommandOp::Restart.shell_command(), "sudo shutdown -r now");
    assert_eq!(CommandOp::Shutdown.shell_command(), "sudo shutdown -h now");
}

#[test]
fn hostname_from_user_agent_parses() {
    assert_eq!(hostname_from_user_agent("dgmon-push/spark-01").as_deref(), Some("spark-01"));
}

#[test]
fn hostname_from_user_agent_rejects_bad() {
    assert!(hostname_from_user_agent("curl/8.0").is_none());
    assert!(hostname_from_user_agent("dgmon-push/").is_none());
}

#[test]
fn hostname_from_user_agent_trims() {
    assert_eq!(hostname_from_user_agent("dgmon-push/  node7 \t").as_deref(), Some("node7"));
    assert!(hostname_from_user_agent("dgmon-push/   ").is_none());
    assert!(hostname_from_user_agent("DGMON-PUSH/node").is_none());
}

#[test]
fn mailbox_ack_restores_previous_state() {
    let mut mb = Mailbox::new();
    assert!(mb.post("x", CommandOp::Shutdown, at(1)));
    let before = mb.all().len();
    assert!(mb.post("y", CommandOp::Restart, at(1)));
    assert!(mb.ack("y"));
    assert_eq!(mb.all().len(), before);
    assert_eq!(mb.poll("x").unwrap().op, CommandOp::Shutdown);
    assert!(mb.poll("y").is_none());
}

#[test]
fn mailbox_ack_on_other_host_keeps_pending() {
    let mut mb = Mailbox::default();
    assert!(mb.post("a", CommandOp::Restart, at(1)));
    assert!(!mb.ack("b"));
    assert_eq!(mb.poll("a").unwrap().op, CommandOp::Restart);
    let all = mb.all();
    assert_eq!(all.len(), 1);
    assert_eq!(all[0].0, "a");
    assert_eq!(all[0].1.op, CommandOp::Restart);
}

#[test]
fn post_command_needs_known_node() {
    let mut mb = Mailbox::new();
    let mut nodes = NodeStore::new();
    assert_eq!(post_command(&mut mb, &nodes, "n1", CommandOp::Restart, at(2)), PostOutcome::NodeNotFound);
    assert!(mb.poll("n1").is_none());
    nodes.put("n1".to_string(), snapshot_of("n1", 1));
    assert_eq!(post_command(&mut mb, &nodes, "n1", CommandOp::Restart, at(2)), PostOutcome::Queued);
    assert_eq!(post_command(&mut mb, &nodes, "n1", CommandOp::Shutdown, at(2)), PostOutcome::AlreadyPending);
    assert_eq!(mb.poll("n1").unwrap().op, CommandOp::Restart);
}

#[test]
fn control_nodes_lists_pending_commands() {
    let mut mb = Mailbox::new();
    let a = snapshot_of("a", 2);
    let b = snapshot_of("b", 0);
    assert!(mb.post("b", CommandOp::Shutdown, at(1)));
    let snaps = vec![&a, &b];
    let list = control_nodes(&snaps, &mb);
    assert_eq!(list.len(), 2);
    assert_eq!(list[0].hostname, "a");
    assert_eq!(list[0].gpus, 2);
    assert!(list[0].pending_command.is_none());
    assert_eq!(list[1].hostname, "b");
    assert_eq!(list[1].gpus, 0);
    assert_eq!(list[1].pending_command.unwrap().op, CommandOp::Shutdown);
    assert_eq!(list[1].timestamp, Timestamp { secs: 1_700_000_000, nanos: 0 });
}

#[test]
fn control_is_disabled_by_default() {
    assert!(!ControlConfig::default().enabled);
}

#[test]
fn agent_poll_answers() {
    let mut mb = Mailbox::new();
    assert!(matches!(agent_poll(&mb, None), PollAnswer::BadUserAgent));
    assert!(matches!(agent_poll(&mb, Some("curl/8.0")), PollAnswer::BadUserAgent));
    assert!(matches!(agent_poll(&mb, Some("dgmon-push/n1")), PollAnswer::NothingPending));
    assert!(mb.post("n1", CommandOp::Shutdown, at(1)));
    match agent_poll(&mb, Some("dgmon-push/n1")) {
        PollAnswer::Pending(c) => assert_eq!(c.op, CommandOp::Shutdown),
        other => panic!("unexpected {other:?}"),
    }
}

#[test]
fn agent_ack_answers() {
    let mut mb = Mailbox::new();
    assert!(mb.post("n1", CommandOp::Restart, at(1)));
    assert!(matches!(agent_ack(&mut mb, Some("bad")), AckAnswer::BadUserAgent));
    assert!(mb.poll("n1").is_some());
    match agent_ack(&mut mb, Some("dgmon-push/n1")) {
        AckAnswer::Acked(h) => assert_eq!(h, "n1"),
        other => panic!("unexpected {other:?}"),
    }
    assert!(mb.poll("n1").is_none());
    match agent_ack(&mut mb, Some("dgmon-push/n1")) {
        AckAnswer::NoCommand(h) => assert_eq!(h, "n1"),
        other => panic!("unexpected {other:?}"),
    }
    assert!(matches!(agent_ack(&mut mb, None), AckAnswer::BadUserAgent));
}

#[test]
fn user_agent_round_trip() {
    for h in ["spark-01", "a", "node.example.com", "x y"] {
        let ua = format!("dgmon-push/{h}");
        assert_eq!(hostname_from_user_agent(&ua).as_deref(), Some(h));
    }
}

#[test]
fn agent_side_urls_and_header() {
    assert_eq!(agent_user_agent("spark-01"), "dgmon-push/spark-01");
    assert_eq!(hostname_from_user_agent(&agent_user_agent("spark-01")).as_deref(), Some("spark-01"));
    assert_eq!(server_base("http://10.0.0.1:9401/ingest"), "http://10.0.0.1:9401");
    assert_eq!(server_base("http://10.0.0.1:9401"), "http://10.0.0.1:9401");
    assert_eq!(server_base("/ingest"), "");
    assert_eq!(mailbox_url("http://h:9401/ingest"), "http://h:9401/api/v1/control/mailbox");
    assert_eq!(mailbox_ack_url("http://h:9401/ingest"), "http://h:9401/api/v1/control/mailbox/ack");
}

#[test]
fn agent_acks_only_a_polled_command() {
    assert_eq!(command_to_ack(200, Some(CommandOp::Restart)), Some(CommandOp::Restart));
    assert_eq!(command_to_ack(204, None), None);
    assert_eq!(command_to_ack(400, Some(CommandOp::Shutdown)), None);
    assert_eq!(command_to_ack(200, None), None);
}
