use dgmon::collector::nvidia::{cpu_freq_mhz, disk_totals, mib_of_bytes, network_totals};
use dgmon::collector::nvidia::{
    detect_role, gpu_columns, gpu_rows, gpu_sample_from_columns, parse_bool_from_bitmask, parse_hex_u64,
    parse_opt_u32, parse_opt_u64, parse_u32, GPU_COLUMNS, QUERY,
};
use dgmon::collector::Real32;

const LINE: &str = "0, GPU-abc-123, NVIDIA GB10, 45, 30, 61, [N/A], [N/A], [N/A], [N/A], [N/A], P0, 2418, 4266, 3003, 4266, [N/A], 5, 5, 16, 16, 0x0000000000000048";

#[test]
fn parse_u32_reads_or_defaults_to_zero() {
    assert_eq!(parse_u32(" 42 "), 42);
    assert_eq!(parse_u32("+7"), 7);
    assert_eq!(parse_u32("abc"), 0);
    assert_eq!(parse_u32(""), 0);
    assert_eq!(parse_u32("4294967295"), u32::MAX);
    assert_eq!(parse_u32("4294967296"), 0);
    assert_eq!(parse_u32("-1"), 0);
}

#[test]
fn parse_opt_u32_handles_missing_values() {
    assert_eq!(parse_opt_u32("[N/A]"), None);
    assert_eq!(parse_opt_u32(" [N/A] "), None);
    assert_eq!(parse_opt_u32("   "), None);
    assert_eq!(parse_opt_u32("1980"), Some(1980));
    assert_eq!(parse_opt_u32("12.5"), None);
}

#[test]
fn parse_opt_u64_handles_missing_values() {
    assert_eq!(parse_opt_u64("[N/A]"), None);
    assert_eq!(parse_opt_u64("131072"), Some(131072));
    assert_eq!(parse_opt_u64("18446744073709551615"), Some(u64::MAX));
    assert_eq!(parse_opt_u64("18446744073709551616"), None);
}

#[test]
fn parse_hex_u64_reads_bitmasks() {
    assert_eq!(parse_hex_u64("0x0000000000000048"), 0x48);
    assert_eq!(parse_hex_u64("ff"), 255);
    assert_eq!(parse_hex_u64("0xFF"), 255);
    assert_eq!(parse_hex_u64("[N/A]"), 0);
    assert_eq!(parse_hex_u64(""), 0);
    assert_eq!(parse_hex_u64("0xzz"), 0);
}

#[test]
fn bitmask_bits() {
    assert!(parse_bool_from_bitmask(0x48, 0x40));
    assert!(parse_bool_from_bitmask(0x48, 0x8));
    assert!(!parse_bool_from_bitmask(0x48, 0x10));
    assert!(!parse_bool_from_bitmask(0, 0x20));
}

#[test]
fn detect_role_by_interface_name() {
    assert_eq!(detect_role("enp1s0f0np0"), "cluster");
    assert_eq!(detect_role("enP2p1s0f1np1"), "cluster");
    assert_eq!(detect_role("eth0"), "main");
    assert_eq!(detect_role("enP7s7"), "main");
    assert_eq!(detect_role("eno1"), "main");
    assert_eq!(detect_role("ens5"), "main");
    assert_eq!(detect_role("lo"), "other");
    assert_eq!(detect_role("docker0"), "other");
}

#[test]
fn query_names_every_column() {
    assert_eq!(QUERY.split(',').count(), GPU_COLUMNS);
}

#[test]
fn gpu_columns_split_on_comma_space() {
    let cols = gpu_columns(LINE);
    assert_eq!(cols.len(), 22);
    assert_eq!(cols[1], "GPU-abc-123");
    assert_eq!(cols[21], "0x0000000000000048");
    assert_eq!(gpu_columns("a,b, c"), vec!["a,b".to_string(), "c".to_string()]);
    assert_eq!(gpu_columns(""), vec![String::new()]);
}

#[test]
fn gpu_sample_from_line() {
    let cols = gpu_columns(LINE);
    let g = gpu_sample_from_columns(&cols, Some(Real32 { bits: 12.5f32.to_bits() }), None);
    assert_eq!(g.index, 0);
    assert_eq!(g.uuid, "GPU-abc-123");
    assert_eq!(g.name, "NVIDIA GB10");
    assert_eq!(g.utilization_gpu, 45);
    assert_eq!(g.utilization_memory, 30);
    assert_eq!(g.temperature_c, 61);
    assert_eq!(g.power_w.map(|p| f32::from_bits(p.bits)), Some(12.5));
    assert_eq!(g.power_limit_w, None);
    assert_eq!(g.memory_used_mb, None);
    assert_eq!(g.memory_total_mb, None);
    assert_eq!(g.fan_speed_pct, None);
    assert_eq!(g.pstate, "P0");
    assert_eq!(g.sm_clock_mhz, Some(2418));
    assert_eq!(g.mem_clock_mhz, Some(4266));
    assert_eq!(g.sm_clock_max_mhz, Some(3003));
    assert_eq!(g.mem_clock_max_mhz, Some(4266));
    assert_eq!(g.mem_temp_c, None);
    assert_eq!(g.pcie_link_gen, Some(5));
    assert_eq!(g.pcie_link_gen_max, Some(5));
    assert_eq!(g.pcie_link_width, Some(16));
    assert_eq!(g.pcie_link_width_max, Some(16));
    assert_eq!(g.throttle_active, 0x48);
    assert!(!g.throttle_hw_thermal);
    assert!(g.throttle_sw_thermal);
    assert!(g.throttle_hw_slowdown);
    assert!(!g.throttle_power_brake);
}

#[test]
fn gpu_rows_skip_short_lines() {
    let out = format!("{LINE}\r\nshort, line\n{LINE}\n");
    let rows = gpu_rows(&out);
    assert_eq!(rows.len(), 2);
    assert!(rows.iter().all(|r| r.len() == 22));
    assert!(gpu_rows("").is_empty());
    assert!(gpu_rows("\n\n").is_empty());
}

#[test]
fn cpu_frequency_from_khz_text() {
    assert_eq!(cpu_freq_mhz("2800000\n"), Some(2800));
    assert_eq!(cpu_freq_mhz("3899999"), Some(3899));
    assert_eq!(cpu_freq_mhz("999"), Some(0));
    assert_eq!(cpu_freq_mhz("n/a"), None);
    assert_eq!(cpu_freq_mhz(""), None);
}

#[test]
fn mib_of_bytes_rounds_down() {
    assert_eq!(mib_of_bytes(0), 0);
    assert_eq!(mib_of_bytes(1_048_575), 0);
    assert_eq!(mib_of_bytes(1_048_576), 1);
    assert_eq!(mib_of_bytes(68_719_476_736), 65_536);
    assert_eq!(mib_of_bytes(u64::MAX), 17_592_186_044_415);
}

#[test]
fn network_totals_sum_both_counters() {
    assert_eq!(network_totals(&vec![]), Some((0, 0)));
    assert_eq!(network_totals(&vec![(1, 2), (10, 20), (100, 200)]), Some((111, 222)));
    assert_eq!(network_totals(&vec![(u64::MAX, 0), (0, 5)]), Some((u64::MAX, 5)));
    assert_eq!(network_totals(&vec![(u64::MAX, 0), (1, 0)]), None);
    assert_eq!(network_totals(&vec![(0, u64::MAX), (0, 1)]), None);
}

#[test]
fn disk_totals_sum_total_and_used_space() {
    assert_eq!(disk_totals(&vec![]), Some((0, 0)));
    assert_eq!(disk_totals(&vec![(1_000, 400), (500, 500)]), Some((1_500, 600)));
    assert_eq!(disk_totals(&vec![(1_000, 1_001)]), None);
    assert_eq!(disk_totals(&vec![(u64::MAX, 0), (1, 1)]), None);
}
