use dgmon::collector::mock::{SGLANG_KV_CACHE_BITS, VLLM_KV_CACHE_BITS};
use dgmon::collector::nvidia::detect_role;
use dgmon::collector::{MockCollector, Real32, Real64, Timestamp};

fn f32_of(r: Real32) -> f32 {
    f32::from_bits(r.bits)
}

fn f64_of(r: Real64) -> f64 {
    f64::from_bits(r.bits)
}

fn snapshot() -> dgmon::collector::Snapshot {
    MockCollector.collect(Timestamp { secs: 1_700_000_000, nanos: 5 })
}

#[test]
fn whole_numbers_convert_to_single_precision() {
    for n in [0u32, 1, 2, 3, 5, 24, 350, 420, 700, 1_000, 16_777_215] {
        assert_eq!(Real32::from_halves(n, 0).bits, (n as f32).to_bits(), "n = {n}");
    }
}

#[test]
fn halved_numbers_convert_to_single_precision() {
    assert_eq!(f32_of(Real32::from_halves(25, 1)), 12.5);
    assert_eq!(f32_of(Real32::from_halves(3, 2)), 0.75);
    assert_eq!(f32_of(Real32::from_halves(1, 100)), 2f32.powi(-100));
    assert_eq!(Real32::from_halves(0, 7).bits, 0);
}

#[test]
fn whole_numbers_convert_to_double_precision() {
    for n in [0u64, 1, 3, 1_200, 15_000, 1_250_000, 14_000_000_000, 35_000_000_000, (1u64 << 53) - 1] {
        assert_eq!(Real64::from_whole(n).bits, (n as f64).to_bits(), "n = {n}");
    }
}

#[test]
fn kv_cache_constants_are_the_nearest_doubles() {
    assert_eq!(f64::from_bits(VLLM_KV_CACHE_BITS), 0.45);
    assert_eq!(f64::from_bits(SGLANG_KV_CACHE_BITS), 0.62);
}

#[test]
fn mock_collector_is_named_mock() {
    assert_eq!(MockCollector.name(), "mock");
}

#[test]
fn mock_snapshot_carries_the_given_time_and_host() {
    let s = snapshot();
    assert_eq!(s.timestamp, Timestamp { secs: 1_700_000_000, nanos: 5 });
    assert_eq!(s.host.hostname, "mock-dgx-spark");
    assert_eq!(f32_of(s.host.cpu_usage_pct), 12.5);
    assert_eq!(s.host.memory_used_mb, 64_000);
    assert_eq!(s.host.memory_total_mb, 512_000);
    assert_eq!(f64_of(s.host.disk_used_gb), 1_200.0);
    assert_eq!(f64_of(s.host.disk_total_gb), 15_000.0);
    assert_eq!(s.host.network_rx_bytes, 1_000_000);
    assert_eq!(s.host.network_tx_bytes, 2_000_000);
    assert_eq!(s.host.uptime_seconds, 86400);
    assert!(s.extra.is_empty());
}

#[test]
fn mock_snapshot_has_eight_gpus() {
    let s = snapshot();
    assert_eq!(s.gpus.len(), 8);
    for (i, g) in s.gpus.iter().enumerate() {
        let i = i as u32;
        assert_eq!(g.index, i);
        assert_eq!(g.uuid, format!("GPU-{i}-mock"));
        assert_eq!(g.name, "NVIDIA DGX H200 Mock");
        assert_eq!(g.utilization_gpu, 40 + i * 5);
        assert_eq!(g.utilization_memory, 50);
        assert_eq!(g.temperature_c, 55 + i);
        assert_eq!(g.power_w.map(f32_of), Some(350.0 + i as f32 * 10.0));
        assert_eq!(g.power_limit_w.map(f32_of), Some(700.0));
        assert_eq!(g.memory_used_mb, Some(40_000 + i as u64 * 5_000));
        assert_eq!(g.memory_total_mb, Some(140_000));
        assert_eq!(g.fan_speed_pct, Some(60));
        assert_eq!(g.pstate, format!("P{i}"));
        assert_eq!(g.sm_clock_mhz, Some(1_800 + i * 10));
        assert_eq!(g.mem_clock_mhz, Some(2_600));
        assert_eq!(g.sm_clock_max_mhz, Some(1_980));
        assert_eq!(g.mem_clock_max_mhz, Some(2_600));
        assert_eq!(g.mem_temp_c, Some(60 + i));
        assert_eq!((g.pcie_link_gen, g.pcie_link_gen_max), (Some(5), Some(5)));
        assert_eq!((g.pcie_link_width, g.pcie_link_width_max), (Some(16), Some(16)));
        assert_eq!(g.throttle_active, 0);
        assert!(!g.throttle_hw_thermal && !g.throttle_sw_thermal);
        assert!(!g.throttle_hw_slowdown && !g.throttle_power_brake);
    }
}

#[test]
fn mock_snapshot_has_sixty_four_cores() {
    let s = snapshot();
    assert_eq!(s.host.cpu_cores.len(), 64);
    for (i, c) in s.host.cpu_cores.iter().enumerate() {
        assert_eq!(c.index, i as u32);
        assert_eq!(f32_of(c.usage_pct), 5.0 + (i as f32 % 20.0));
        assert_eq!(c.freq_mhz, Some(2800));
        assert_eq!(c.governor.as_deref(), Some("performance"));
        assert_eq!(c.max_freq_mhz, Some(3900));
    }
}

#[test]
fn mock_snapshot_has_three_interfaces_with_detected_roles() {
    let s = snapshot();
    let nets = &s.host.networks;
    assert_eq!(nets.len(), 3);
    let names: Vec<&str> = nets.iter().map(|n| n.interface.as_str()).collect();
    assert_eq!(names, vec!["eth0", "enp1s0f0np0", "enp1s0f1np1"]);
    let roles: Vec<&str> = nets.iter().map(|n| n.role.as_str()).collect();
    assert_eq!(roles, vec!["main", "cluster", "cluster"]);
    for n in nets {
        assert_eq!(n.role, detect_role(&n.interface));
        assert!(n.up);
    }
    assert_eq!((nets[0].rx_bytes, nets[0].tx_bytes), (1_000_000, 2_000_000));
    assert_eq!((nets[0].rx_packets, nets[0].tx_packets), (10_000, 20_000));
    assert_eq!(nets[0].speed_mbps, Some(1000));
    assert_eq!((nets[1].rx_bytes, nets[1].tx_bytes), (50_000_000, 60_000_000));
    assert_eq!((nets[1].rx_packets, nets[1].tx_packets), (500_000, 600_000));
    assert_eq!(nets[1].speed_mbps, Some(200_000));
    assert_eq!((nets[2].rx_bytes, nets[2].tx_bytes), (55_000_000, 65_000_000));
    assert_eq!((nets[2].rx_packets, nets[2].tx_packets), (550_000, 650_000));
    assert_eq!(nets[2].speed_mbps, Some(200_000));
}

#[test]
fn mock_snapshot_has_two_inference_servers() {
    let s = snapshot();
    assert_eq!(s.inference.len(), 2);
    let vllm = &s.inference[0];
    assert_eq!(vllm.engine, "vllm");
    assert_eq!(vllm.model_name, "llama-3.1-8b-instruct");
    assert_eq!(vllm.metrics.len(), 31);
    let sglang = &s.inference[1];
    assert_eq!(sglang.engine, "sglang");
    assert_eq!(sglang.model_name, "qwen2.5-32b");
    assert_eq!(sglang.metrics.len(), 31);
    let value = |inf: &dgmon::collector::InferenceSample, name: &str| -> f64 {
        let m = inf.metrics.iter().find(|m| m.0 == name).expect("metric present");
        f64_of(m.1)
    };
    assert_eq!(value(vllm, "vllm:num_requests_running"), 3.0);
    assert_eq!(value(vllm, "vllm:kv_cache_usage_perc"), 0.45);
    assert_eq!(value(vllm, "vllm:time_to_first_token_seconds_bucket{le=\"+Inf\"}"), 500.0);
    assert_eq!(value(vllm, "vllm:process_virtual_memory_bytes"), 20_000_000_000.0);
    assert_eq!(value(sglang, "sglang:kv_cache_usage_perc"), 0.62);
    assert_eq!(value(sglang, "sglang:inter_token_latency_seconds_bucket{le=\"0.25\"}"), 4800.0);
    assert_eq!(value(sglang, "sglang:process_virtual_memory_bytes"), 35_000_000_000.0);
    for inf in &s.inference {
        let prefix = format!("{}:", inf.engine);
        assert!(inf.metrics.iter().all(|m| m.0.starts_with(&prefix)));
    }
}
