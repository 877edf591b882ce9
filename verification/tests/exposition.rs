use dgmon::collector::{
    CpuCoreSample, GpuSample, HostSample, InferenceSample, NetSample, Real32, Real64, Snapshot, Timestamp,
};
use dgmon::http::{render_prometheus, Piece, ValueSlot};
use dgmon::metric_name::sanitize_metric_name;
use dgmon::storage::{snapshot_to_rows, SampleValue};

fn r32(v: f32) -> Real32 {
    Real32 { bits: v.to_bits() }
}

fn r64(v: f64) -> Real64 {
    Real64 { bits: v.to_bits() }
}

fn gpu(i: u32, full: bool) -> GpuSample {
    GpuSample {
        index: i,
        uuid: format!("GPU-{i}-mock"),
        name: "NVIDIA DGX H200 Mock".to_string(),
        utilization_gpu: 40 + i * 5,
        utilization_memory: 50,
        temperature_c: 55 + i,
        power_w: if full { Some(r32(350.0 + i as f32 * 10.0)) } else { None },
        power_limit_w: if full { Some(r32(700.0)) } else { None },
        memory_used_mb: if full { Some(40_000 + i as u64 * 5_000) } else { None },
        memory_total_mb: Some(140_000),
        fan_speed_pct: if full { Some(60) } else { None },
        pstate: format!("P{i}"),
        sm_clock_mhz: Some(1_800 + i * 10),
        mem_clock_mhz: if full { Some(2_600) } else { None },
        sm_clock_max_mhz: Some(1_980),
        mem_clock_max_mhz: Some(2_600),
        mem_temp_c: if full { Some(60 + i) } else { None },
        pcie_link_gen: Some(5),
        pcie_link_gen_max: Some(5),
        pcie_link_width: Some(16),
        pcie_link_width_max: if full { Some(16) } else { None },
        throttle_active: if full { 0x48 } else { 0 },
        throttle_hw_thermal: false,
        throttle_sw_thermal: full,
        throttle_hw_slowdown: full,
        throttle_power_brake: false,
    }
}

fn sample_snapshot(host: &str) -> Snapshot {
    Snapshot {
        timestamp: Timestamp { secs: 1_700_000_000, nanos: 250_000_000 },
        host: HostSample {
            hostname: host.to_string(),
            cpu_usage_pct: r32(12.34),
            memory_used_mb: 64_000,
            memory_total_mb: 128_000,
            disk_used_gb: r64(300.456),
            disk_total_gb: r64(1000.0),
            network_rx_bytes: 1_000_000,
            network_tx_bytes: 2_000_000,
            uptime_seconds: 86_400,
            cpu_cores: vec![
                CpuCoreSample {
                    index: 0,
                    usage_pct: r32(10.0),
                    freq_mhz: Some(2800),
                    governor: Some("performance".to_string()),
                    max_freq_mhz: Some(3900),
                },
                CpuCoreSample { index: 1, usage_pct: r32(20.05), freq_mhz: None, governor: None, max_freq_mhz: None },
            ],
            networks: vec![
                NetSample {
                    interface: "eth0".to_string(),
                    role: "main".to_string(),
                    rx_bytes: 1,
                    tx_bytes: 2,
                    rx_packets: 3,
                    tx_packets: 4,
                    speed_mbps: Some(1000),
                    up: true,
                },
                NetSample {
                    interface: "enp1s0f0np0".to_string(),
                    role: "cluster".to_string(),
                    rx_bytes: 5,
                    tx_bytes: 6,
                    rx_packets: 7,
                    tx_packets: 8,
                    speed_mbps: None,
                    up: false,
                },
            ],
        },
        gpus: vec![gpu(0, true), gpu(1, false)],
        inference: vec![InferenceSample {
            engine: "vllm".to_string(),
            model_name: "llama".to_string(),
            metrics: vec![
                ("vllm:num_requests_running".to_string(), r64(3.0)),
                ("vllm:kv_cache_usage_perc".to_string(), r64(0.45)),
                ("vllm:ttft_bucket{le=\"0.1\"}".to_string(), r64(80.0)),
            ],
        }],
        extra: vec![("cluster".to_string(), "dgx-lab".to_string()), ("rack".to_string(), "r1".to_string())],
    }
}

/// Write the pieces out as text.
fn write_pieces(pieces: &[Piece]) -> String {
    let mut out = String::new();
    for p in pieces {
        out.push_str(&p.text);
        match p.slot {
            ValueSlot::NoValue => {}
            ValueSlot::Fixed1(v) => out.push_str(&format!("{:.1}", f32::from_bits(v.bits))),
            ValueSlot::Fixed2(v) => out.push_str(&format!("{:.2}", f64::from_bits(v.bits))),
            ValueSlot::Plain(v) => out.push_str(&format!("{}", f64::from_bits(v.bits))),
        }
    }
    out
}

/// The exposition text, written out directly from the format of each line.
fn expected_exposition(snaps: &[&Snapshot]) -> String {
    let mut out = String::new();
    for snap in snaps {
        let host = &snap.host.hostname;
        let extra: String = snap.extra.iter().map(|(k, v)| format!(",{k}=\"{v}\"")).collect();
        let h = &snap.host;
        let line = |out: &mut String, name: &str, help: &str, labels: &str, value: String| {
            out.push_str(&format!("# HELP {name} {help}\n{name}{{{labels}}} {value}\n"));
        };
        let hl = format!("hostname=\"{host}\"{extra}");
        line(&mut out, "dgmon_cpu_usage_pct", "CPU usage percentage", &hl, format!("{:.1}", f32::from_bits(h.cpu_usage_pct.bits)));
        line(&mut out, "dgmon_memory_used_mb", "Memory used in MiB", &hl, h.memory_used_mb.to_string());
        line(&mut out, "dgmon_memory_total_mb", "Total memory in MiB", &hl, h.memory_total_mb.to_string());
        line(&mut out, "dgmon_uptime_seconds", "Host uptime in seconds", &hl, h.uptime_seconds.to_string());
        line(&mut out, "dgmon_disk_used_gb", "Disk space used in GB", &hl, format!("{:.2}", f64::from_bits(h.disk_used_gb.bits)));
        line(&mut out, "dgmon_disk_total_gb", "Total disk space in GB", &hl, format!("{:.2}", f64::from_bits(h.disk_total_gb.bits)));
        line(&mut out, "dgmon_network_rx_bytes", "Network bytes received", &hl, h.network_rx_bytes.to_string());
        line(&mut out, "dgmon_network_tx_bytes", "Network bytes transmitted", &hl, h.network_tx_bytes.to_string());
        for c in &h.cpu_cores {
            let cl = format!("hostname=\"{host}\",core=\"{}\"{extra}", c.index);
            line(&mut out, "dgmon_cpu_core_usage_pct", "Per-CPU-core utilization percentage", &cl, format!("{:.1}", f32::from_bits(c.usage_pct.bits)));
            if let Some(f) = c.freq_mhz {
                line(&mut out, "dgmon_cpu_core_freq_mhz", "Per-CPU-core frequency in MHz", &cl, f.to_string());
            }
            if let Some(g) = &c.governor {
                line(&mut out, "dgmon_cpu_core_governor", "CPU scaling governor", &cl, g.clone());
            }
            if let Some(f) = c.max_freq_mhz {
                line(&mut out, "dgmon_cpu_core_max_freq_mhz", "Per-CPU-core max frequency in MHz", &cl, f.to_string());
            }
        }
        for n in &h.networks {
            let nl = format!("hostname=\"{host}\",interface=\"{}\",role=\"{}\"{extra}", n.interface, n.role);
            line(&mut out, "dgmon_net_rx_bytes", "Per-interface bytes received", &nl, n.rx_bytes.to_string());
            line(&mut out, "dgmon_net_tx_bytes", "Per-interface bytes transmitted", &nl, n.tx_bytes.to_string());
            line(&mut out, "dgmon_net_rx_packets", "Per-interface packets received", &nl, n.rx_packets.to_string());
            line(&mut out, "dgmon_net_tx_packets", "Per-interface packets transmitted", &nl, n.tx_packets.to_string());
            if let Some(s) = n.speed_mbps {
                line(&mut out, "dgmon_net_speed_mbps", "Per-interface link speed in Mbps", &nl, s.to_string());
            }
            line(&mut out, "dgmon_net_up", "Per-interface link up state", &nl, if n.up { "1" } else { "0" }.to_string());
        }
        for g in &snap.gpus {
            let gl = format!("hostname=\"{host}\",gpu=\"{}\",uuid=\"{}\",model=\"{}\"{extra}", g.index, g.uuid, g.name);
            line(&mut out, "dgmon_gpu_utilization", "GPU utilization percentage", &gl, g.utilization_gpu.to_string());
            line(&mut out, "dgmon_gpu_mem_utilization", "GPU memory utilization percentage", &gl, g.utilization_memory.to_string());
            line(&mut out, "dgmon_gpu_temp_c", "GPU temperature in Celsius", &gl, g.temperature_c.to_string());
            if let Some(p) = g.power_w {
                line(&mut out, "dgmon_gpu_power_w", "GPU power draw in watts", &gl, format!("{:.1}", f32::from_bits(p.bits)));
            }
            if let Some(p) = g.power_limit_w {
                line(&mut out, "dgmon_gpu_power_limit_w", "GPU power limit in watts", &gl, format!("{:.1}", f32::from_bits(p.bits)));
            }
            let opts: [(&str, &str, Option<u64>); 12] = [
                ("dgmon_gpu_memory_used_mb", "GPU memory used in MiB", g.memory_used_mb),
                ("dgmon_gpu_memory_total_mb", "GPU memory total in MiB", g.memory_total_mb),
                ("dgmon_gpu_fan_speed_pct", "GPU fan speed percentage", g.fan_speed_pct.map(u64::from)),
                ("dgmon_gpu_sm_clock_mhz", "GPU SM clock in MHz", g.sm_clock_mhz.map(u64::from)),
                ("dgmon_gpu_mem_clock_mhz", "GPU memory clock in MHz", g.mem_clock_mhz.map(u64::from)),
                ("dgmon_gpu_sm_clock_max_mhz", "GPU max SM clock in MHz", g.sm_clock_max_mhz.map(u64::from)),
                ("dgmon_gpu_mem_clock_max_mhz", "GPU max memory clock in MHz", g.mem_clock_max_mhz.map(u64::from)),
                ("dgmon_gpu_mem_temp_c", "GPU memory temperature in Celsius", g.mem_temp_c.map(u64::from)),
                ("dgmon_gpu_pcie_link_gen", "Current PCIe link generation", g.pcie_link_gen.map(u64::from)),
                ("dgmon_gpu_pcie_link_gen_max", "Max PCIe link generation", g.pcie_link_gen_max.map(u64::from)),
                ("dgmon_gpu_pcie_link_width", "Current PCIe link width in lanes", g.pcie_link_width.map(u64::from)),
                ("dgmon_gpu_pcie_link_width_max", "Max PCIe link width in lanes", g.pcie_link_width_max.map(u64::from)),
            ];
            for (name, help, v) in opts {
                if let Some(v) = v {
                    line(&mut out, name, help, &gl, v.to_string());
                }
            }
            line(&mut out, "dgmon_gpu_throttle_active", "GPU clock throttle reasons bitmask", &gl, g.throttle_active.to_string());
            line(&mut out, "dgmon_gpu_throttle_hw_thermal", "HW thermal slowdown active", &gl, (g.throttle_hw_thermal as u8).to_string());
            line(&mut out, "dgmon_gpu_throttle_sw_thermal", "SW thermal slowdown active", &gl, (g.throttle_sw_thermal as u8).to_string());
            line(&mut out, "dgmon_gpu_throttle_hw_slowdown", "HW slowdown active", &gl, (g.throttle_hw_slowdown as u8).to_string());
            line(&mut out, "dgmon_gpu_throttle_power_brake", "HW power brake slowdown active", &gl, (g.throttle_power_brake as u8).to_string());
        }
        for inf in &snap.inference {
            let il = format!("hostname=\"{host}\",engine=\"{}\",model_name=\"{}\"{extra}", inf.engine, inf.model_name);
            for (name, value) in &inf.metrics {
                out.push_str(&format!("{}{{{il}}} {}\n", sanitize_metric_name(name), f64::from_bits(value.bits)));
            }
        }
    }
    out
}

#[test]
fn exposition_matches_line_format() {
    let a = sample_snapshot("spark-01");
    let mut b = sample_snapshot("spark-02");
    b.extra.clear();
    b.gpus.truncate(1);
    let snaps = vec![&a, &b];
    let text = write_pieces(&render_prometheus(&snaps));
    assert_eq!(text, expected_exposition(&snaps));
}

#[test]
fn exposition_sample_lines() {
    let a = sample_snapshot("n");
    let text = write_pieces(&render_prometheus(&[&a]));
    assert!(text.contains("dgmon_cpu_usage_pct{hostname=\"n\",cluster=\"dgx-lab\",rack=\"r1\"} 12.3\n"));
    assert!(text.contains("dgmon_disk_used_gb{hostname=\"n\",cluster=\"dgx-lab\",rack=\"r1\"} 300.46\n"));
    assert!(text.contains("dgmon_cpu_core_governor{hostname=\"n\",core=\"0\",cluster=\"dgx-lab\",rack=\"r1\"} performance\n"));
    assert!(text.contains("dgmon_net_up{hostname=\"n\",interface=\"enp1s0f0np0\",role=\"cluster\",cluster=\"dgx-lab\",rack=\"r1\"} 0\n"));
    assert!(text.contains("dgmon_gpu_throttle_sw_thermal{hostname=\"n\",gpu=\"0\",uuid=\"GPU-0-mock\",model=\"NVIDIA DGX H200 Mock\",cluster=\"dgx-lab\",rack=\"r1\"} 1\n"));
    assert!(text.contains("dgmon_inference_kv_cache_usage_perc{hostname=\"n\",engine=\"vllm\",model_name=\"llama\",cluster=\"dgx-lab\",rack=\"r1\"} 0.45\n"));
    assert!(text.contains("dgmon_inference_ttft_bucket_le__0_1__{"));
    assert!(!text.contains("dgmon_gpu_power_w{hostname=\"n\",gpu=\"1\""));
    assert!(render_prometheus(&[]).is_empty());
}

#[test]
fn rows_of_a_snapshot() {
    let a = sample_snapshot("spark-01");
    let rows = snapshot_to_rows(&a);
    // 8 host rows, 2 core rows, 6 + 5 interface rows, 3 + 14 and 3 + 7 GPU
    // rows, 3 inference rows.
    assert_eq!(rows.len(), 8 + 2 + 11 + 17 + 10 + 3);
    for r in &rows {
        assert_eq!(r.timestamp_ms, 1_700_000_000_250);
        assert_eq!(r.labels[0], ("hostname".to_string(), "spark-01".to_string()));
        assert_eq!(r.labels[1], ("cluster".to_string(), "dgx-lab".to_string()));
        assert_eq!(r.labels[2], ("rack".to_string(), "r1".to_string()));
    }
    assert_eq!(rows[0].metric, "dgmon_cpu_usage_pct");
    assert_eq!(rows[0].value, SampleValue::Single(r32(12.34)));
    assert_eq!(rows[1].value, SampleValue::Count(64_000));
    assert_eq!(rows[8].metric, "dgmon_cpu_core_usage_pct");
    assert_eq!(rows[8].labels[3], ("core".to_string(), "0".to_string()));
    let up = rows.iter().filter(|r| r.metric == "dgmon_net_up").map(|r| r.value).collect::<Vec<_>>();
    assert_eq!(up, vec![SampleValue::Count(1), SampleValue::Count(0)]);
    let last = rows.last().unwrap();
    assert_eq!(last.metric, "dgmon_inference_ttft_bucket_le__0_1__");
    assert_eq!(last.labels[3], ("engine".to_string(), "vllm".to_string()));
    assert_eq!(last.labels[4], ("model_name".to_string(), "llama".to_string()));
    assert_eq!(last.value, SampleValue::Double(r64(80.0)));
    let gpu1: Vec<&str> = rows
        .iter()
        .filter(|r| r.labels.iter().any(|(k, v)| k == "gpu" && v == "1"))
        .map(|r| r.metric.as_str())
        .collect();
    assert_eq!(gpu1.len(), 10);
    assert!(!gpu1.contains(&"dgmon_gpu_power_w"));
}
