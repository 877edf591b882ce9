//! Mock collector for development and testing: realistic samples of a
//! DGX Spark without a real GPU. Every reading is fixed; only the time
//! stamp comes from the caller.
use vstd::prelude::*;

use crate::collector::nvidia::spec_detect_role;
use crate::collector::{
    spec_real32, spec_real64, CpuCoreSample, GpuSample, HostSample, InferenceSample, NetSample,
    Real32, Real64, Snapshot, Timestamp,
};
use crate::number::{decimal, push_decimal};
use crate::text::{append_str, owned};

verus! {

/// The bits of the double nearest to forty-five hundredths, the mock vLLM
/// server's KV-cache usage.
pub const VLLM_KV_CACHE_BITS: u64 = 0x3fdc_cccc_cccc_cccd;

/// The bits of the double nearest to sixty-two hundredths, the mock sglang
/// server's KV-cache usage.
pub const SGLANG_KV_CACHE_BITS: u64 = 0x3fe3_d70a_3d70_a3d7;

/// Produces realistic samples without a real GPU.
pub struct MockCollector;

/// The uuid of mock GPU `i`: `GPU-{i}-mock`.
pub open spec fn mock_uuid(i: nat) -> Seq<char> {
    "GPU-"@ + decimal(i) + "-mock"@
}

/// Mock GPU `i`.
pub open spec fn is_mock_gpu(g: GpuSample, i: nat) -> bool {
    &&& g.index == i
    &&& g.uuid@ == mock_uuid(i)
    &&& g.name@ == "NVIDIA DGX H200 Mock"@
    &&& g.utilization_gpu == 40 + 5 * i
    &&& g.utilization_memory == 50
    &&& g.temperature_c == 55 + i
    &&& g.power_w == Some(spec_real32(350 + 10 * i, 0))
    &&& g.power_limit_w == Some(spec_real32(700, 0))
    &&& g.memory_used_mb == Some((40_000 + 5_000 * i) as u64)
    &&& g.memory_total_mb == Some(140_000u64)
    &&& g.fan_speed_pct == Some(60u32)
    &&& g.pstate@ == "P"@ + decimal(i)
    &&& g.sm_clock_mhz == Some((1_800 + 10 * i) as u32)
    &&& g.mem_clock_mhz == Some(2_600u32)
    &&& g.sm_clock_max_mhz == Some(1_980u32)
    &&& g.mem_clock_max_mhz == Some(2_600u32)
    &&& g.mem_temp_c == Some((60 + i) as u32)
    &&& g.pcie_link_gen == Some(5u32)
    &&& g.pcie_link_gen_max == Some(5u32)
    &&& g.pcie_link_width == Some(16u32)
    &&& g.pcie_link_width_max == Some(16u32)
    &&& g.throttle_active == 0
    &&& !g.throttle_hw_thermal
    &&& !g.throttle_sw_thermal
    &&& !g.throttle_hw_slowdown
    &&& !g.throttle_power_brake
}

/// Mock CPU core `i`: its usage cycles through 5 to 24 percent.
pub open spec fn is_mock_core(c: CpuCoreSample, i: nat) -> bool {
    &&& c.index == i
    &&& c.usage_pct == spec_real32(5 + i % 20, 0)
    &&& c.freq_mhz == Some(2800u32)
    &&& c.governor.is_some()
    &&& c.governor.unwrap()@ == "performance"@
    &&& c.max_freq_mhz == Some(3900u32)
}

/// A mock network interface that is up, with the given counters.
pub open spec fn is_mock_net(
    n: NetSample,
    interface: Seq<char>,
    role: Seq<char>,
    rx: nat,
    tx: nat,
    rx_packets: nat,
    tx_packets: nat,
    speed: nat,
) -> bool {
    &&& n.interface@ == interface
    &&& n.role@ == role
    &&& n.rx_bytes == rx
    &&& n.tx_bytes == tx
    &&& n.rx_packets == rx_packets
    &&& n.tx_packets == tx_packets
    &&& n.speed_mbps == Some(speed as u64)
    &&& n.up
}

/// The mock host: a 64-core DGX Spark with one main and two cluster
/// interfaces.
pub open spec fn is_mock_host(h: HostSample) -> bool {
    &&& h.hostname@ == "mock-dgx-spark"@
    &&& h.cpu_usage_pct == spec_real32(25, 1)
    &&& h.memory_used_mb == 64_000
    &&& h.memory_total_mb == 512_000
    &&& h.disk_used_gb == spec_real64(1_200)
    &&& h.disk_total_gb == spec_real64(15_000)
    &&& h.network_rx_bytes == 1_000_000
    &&& h.network_tx_bytes == 2_000_000
    &&& h.uptime_seconds == 86400
    &&& h.cpu_cores@.len() == 64
    &&& forall|i: int| 0 <= i < 64 ==> is_mock_core(#[trigger] h.cpu_cores@[i], i as nat)
    &&& h.networks@.len() == 3
    &&& is_mock_net(h.networks@[0], "eth0"@, "main"@, 1_000_000, 2_000_000, 10_000, 20_000, 1000)
    &&& is_mock_net(
        h.networks@[1],
        "enp1s0f0np0"@,
        "cluster"@,
        50_000_000,
        60_000_000,
        500_000,
        600_000,
        200_000,
    )
    &&& is_mock_net(
        h.networks@[2],
        "enp1s0f1np1"@,
        "cluster"@,
        55_000_000,
        65_000_000,
        550_000,
        650_000,
        200_000,
    )
}

/// The (name, value) pairs of scraped metrics, names by their chars.
pub open spec fn metric_views(ms: Seq<(String, Real64)>) -> Seq<(Seq<char>, Real64)> {
    ms.map_values(|m: (String, Real64)| (m.0@, m.1))
}

/// The metrics of the mock vLLM server.
pub open spec fn mock_vllm_metrics() -> Seq<(Seq<char>, Real64)> {
    Seq::empty()
        .push(("vllm:num_requests_running"@, spec_real64(3)))
        .push(("vllm:num_requests_waiting"@, spec_real64(2)))
        .push(("vllm:kv_cache_usage_perc"@, Real64 { bits: VLLM_KV_CACHE_BITS }))
        .push(("vllm:generation_tokens_total"@, spec_real64(1_250_000)))
        .push(("vllm:prompt_tokens_total"@, spec_real64(860_000)))
        .push(("vllm:prompt_tokens_cached_total"@, spec_real64(320_000)))
        .push(("vllm:time_to_first_token_seconds_sum"@, spec_real64(450)))
        .push(("vllm:time_to_first_token_seconds_count"@, spec_real64(500)))
        .push(("vllm:time_to_first_token_seconds_bucket{le=\"0.01\"}"@, spec_real64(0)))
        .push(("vllm:time_to_first_token_seconds_bucket{le=\"0.05\"}"@, spec_real64(10)))
        .push(("vllm:time_to_first_token_seconds_bucket{le=\"0.1\"}"@, spec_real64(80)))
        .push(("vllm:time_to_first_token_seconds_bucket{le=\"0.25\"}"@, spec_real64(220)))
        .push(("vllm:time_to_first_token_seconds_bucket{le=\"0.5\"}"@, spec_real64(380)))
        .push(("vllm:time_to_first_token_seconds_bucket{le=\"1.0\"}"@, spec_real64(470)))
        .push(("vllm:time_to_first_token_seconds_bucket{le=\"+Inf\"}"@, spec_real64(500)))
        .push(("vllm:inter_token_latency_seconds_sum"@, spec_real64(1200)))
        .push(("vllm:inter_token_latency_seconds_count"@, spec_real64(8000)))
        .push(("vllm:inter_token_latency_seconds_bucket{le=\"0.01\"}"@, spec_real64(100)))
        .push(("vllm:inter_token_latency_seconds_bucket{le=\"0.05\"}"@, spec_real64(1500)))
        .push(("vllm:inter_token_latency_seconds_bucket{le=\"0.1\"}"@, spec_real64(4000)))
        .push(("vllm:inter_token_latency_seconds_bucket{le=\"0.25\"}"@, spec_real64(6500)))
        .push(("vllm:inter_token_latency_seconds_bucket{le=\"0.5\"}"@, spec_real64(7600)))
        .push(("vllm:inter_token_latency_seconds_bucket{le=\"1.0\"}"@, spec_real64(7950)))
        .push(("vllm:inter_token_latency_seconds_bucket{le=\"+Inf\"}"@, spec_real64(8000)))
        .push(("vllm:request_success_total"@, spec_real64(500)))
        .push(("vllm:num_preemptions_total"@, spec_real64(5)))
        .push(("vllm:prefix_cache_hits_total"@, spec_real64(320_000)))
        .push(("vllm:prefix_cache_queries_total"@, spec_real64(860_000)))
        .push(("vllm:process_cpu_seconds_total"@, spec_real64(7200)))
        .push(("vllm:process_resident_memory_bytes"@, spec_real64(14_000_000_000)))
        .push(("vllm:process_virtual_memory_bytes"@, spec_real64(20_000_000_000)))
}

/// The metrics of the mock sglang server.
pub open spec fn mock_sglang_metrics() -> Seq<(Seq<char>, Real64)> {
    Seq::empty()
        .push(("sglang:num_requests_running"@, spec_real64(2)))
        .push(("sglang:num_requests_waiting"@, spec_real64(1)))
        .push(("sglang:kv_cache_usage_perc"@, Real64 { bits: SGLANG_KV_CACHE_BITS }))
        .push(("sglang:generation_tokens_total"@, spec_real64(980_000)))
        .push(("sglang:prompt_tokens_total"@, spec_real64(640_000)))
        .push(("sglang:prompt_tokens_cached_total"@, spec_real64(210_000)))
        .push(("sglang:time_to_first_token_seconds_sum"@, spec_real64(320)))
        .push(("sglang:time_to_first_token_seconds_count"@, spec_real64(400)))
        .push(("sglang:time_to_first_token_seconds_bucket{le=\"0.01\"}"@, spec_real64(0)))
        .push(("sglang:time_to_first_token_seconds_bucket{le=\"0.05\"}"@, spec_real64(5)))
        .push(("sglang:time_to_first_token_seconds_bucket{le=\"0.1\"}"@, spec_real64(60)))
        .push(("sglang:time_to_first_token_seconds_bucket{le=\"0.25\"}"@, spec_real64(180)))
        .push(("sglang:time_to_first_token_seconds_bucket{le=\"0.5\"}"@, spec_real64(300)))
        .push(("sglang:time_to_first_token_seconds_bucket{le=\"1.0\"}"@, spec_real64(380)))
        .push(("sglang:time_to_first_token_seconds_bucket{le=\"+Inf\"}"@, spec_real64(400)))
        .push(("sglang:inter_token_latency_seconds_sum"@, spec_real64(900)))
        .push(("sglang:inter_token_latency_seconds_count"@, spec_real64(6000)))
        .push(("sglang:inter_token_latency_seconds_bucket{le=\"0.01\"}"@, spec_real64(50)))
        .push(("sglang:inter_token_latency_seconds_bucket{le=\"0.05\"}"@, spec_real64(800)))
        .push(("sglang:inter_token_latency_seconds_bucket{le=\"0.1\"}"@, spec_real64(2500)))
        .push(("sglang:inter_token_latency_seconds_bucket{le=\"0.25\"}"@, spec_real64(4800)))
        .push(("sglang:inter_token_latency_seconds_bucket{le=\"0.5\"}"@, spec_real64(5700)))
        .push(("sglang:inter_token_latency_seconds_bucket{le=\"1.0\"}"@, spec_real64(5950)))
        .push(("sglang:inter_token_latency_seconds_bucket{le=\"+Inf\"}"@, spec_real64(6000)))
        .push(("sglang:request_success_total"@, spec_real64(400)))
        .push(("sglang:num_preemptions_total"@, spec_real64(3)))
        .push(("sglang:prefix_cache_hits_total"@, spec_real64(210_000)))
        .push(("sglang:prefix_cache_queries_total"@, spec_real64(640_000)))
        .push(("sglang:process_cpu_seconds_total"@, spec_real64(5400)))
        .push(("sglang:process_resident_memory_bytes"@, spec_real64(28_000_000_000)))
        .push(("sglang:process_virtual_memory_bytes"@, spec_real64(35_000_000_000)))
}

/// A mock inference sample of `engine` serving `model`.
pub open spec fn is_mock_inference(
    s: InferenceSample,
    engine: Seq<char>,
    model: Seq<char>,
    metrics: Seq<(Seq<char>, Real64)>,
) -> bool {
    &&& s.engine@ == engine
    &&& s.model_name@ == model
    &&& metric_views(s.metrics@) == metrics
}

/// The mock snapshot taken at `t`: the mock host, eight GPUs, a vLLM and an
/// sglang server, and no extra labels.
pub open spec fn is_mock_snapshot(s: Snapshot, t: Timestamp) -> bool {
    &&& s.timestamp == t
    &&& is_mock_host(s.host)
    &&& s.gpus@.len() == 8
    &&& forall|i: int| 0 <= i < 8 ==> is_mock_gpu(#[trigger] s.gpus@[i], i as nat)
    &&& s.inference@.len() == 2
    &&& is_mock_inference(s.inference@[0], "vllm"@, "llama-3.1-8b-instruct"@, mock_vllm_metrics())
    &&& is_mock_inference(s.inference@[1], "sglang"@, "qwen2.5-32b"@, mock_sglang_metrics())
    &&& s.extra@.len() == 0
}

/// Appends the metric `(name, value)`.
fn push_metric(ms: &mut Vec<(String, Real64)>, name: &str, value: Real64)
    ensures
        metric_views(final(ms)@) == metric_views(old(ms)@).push((name@, value)),
{
    ms.push((owned(name), value));
    assert(metric_views(ms@) =~= metric_views(old(ms)@).push((name@, value)));
}

/// The metrics that the mock vLLM server reports.
fn vllm_metrics() -> (r: Vec<(String, Real64)>)
    ensures
        metric_views(r@) == mock_vllm_metrics(),
{
    let mut ms: Vec<(String, Real64)> = Vec::new();
    assert(metric_views(ms@) =~= Seq::empty());
    push_metric(&mut ms, "vllm:num_requests_running", Real64::from_whole(3));
    push_metric(&mut ms, "vllm:num_requests_waiting", Real64::from_whole(2));
    push_metric(&mut ms, "vllm:kv_cache_usage_perc", Real64 { bits: VLLM_KV_CACHE_BITS });
    push_metric(&mut ms, "vllm:generation_tokens_total", Real64::from_whole(1_250_000));
    push_metric(&mut ms, "vllm:prompt_tokens_total", Real64::from_whole(860_000));
    push_metric(&mut ms, "vllm:prompt_tokens_cached_total", Real64::from_whole(320_000));
    push_metric(&mut ms, "vllm:time_to_first_token_seconds_sum", Real64::from_whole(450));
    push_metric(&mut ms, "vllm:time_to_first_token_seconds_count", Real64::from_whole(500));
    push_metric(&mut ms, "vllm:time_to_first_token_seconds_bucket{le=\"0.01\"}", Real64::from_whole(0));
    push_metric(&mut ms, "vllm:time_to_first_token_seconds_bucket{le=\"0.05\"}", Real64::from_whole(10));
    push_metric(&mut ms, "vllm:time_to_first_token_seconds_bucket{le=\"0.1\"}", Real64::from_whole(80));
    push_metric(&mut ms, "vllm:time_to_first_token_seconds_bucket{le=\"0.25\"}", Real64::from_whole(220));
    push_metric(&mut ms, "vllm:time_to_first_token_seconds_bucket{le=\"0.5\"}", Real64::from_whole(380));
    push_metric(&mut ms, "vllm:time_to_first_token_seconds_bucket{le=\"1.0\"}", Real64::from_whole(470));
    push_metric(&mut ms, "vllm:time_to_first_token_seconds_bucket{le=\"+Inf\"}", Real64::from_whole(500));
    push_metric(&mut ms, "vllm:inter_token_latency_seconds_sum", Real64::from_whole(1200));
    push_metric(&mut ms, "vllm:inter_token_latency_seconds_count", Real64::from_whole(8000));
    push_metric(&mut ms, "vllm:inter_token_latency_seconds_bucket{le=\"0.01\"}", Real64::from_whole(100));
    push_metric(&mut ms, "vllm:inter_token_latency_seconds_bucket{le=\"0.05\"}", Real64::from_whole(1500));
    push_metric(&mut ms, "vllm:inter_token_latency_seconds_bucket{le=\"0.1\"}", Real64::from_whole(4000));
    push_metric(&mut ms, "vllm:inter_token_latency_seconds_bucket{le=\"0.25\"}", Real64::from_whole(6500));
    push_metric(&mut ms, "vllm:inter_token_latency_seconds_bucket{le=\"0.5\"}", Real64::from_whole(7600));
    push_metric(&mut ms, "vllm:inter_token_latency_seconds_bucket{le=\"1.0\"}", Real64::from_whole(7950));
    push_metric(&mut ms, "vllm:inter_token_latency_seconds_bucket{le=\"+Inf\"}", Real64::from_whole(8000));
    push_metric(&mut ms, "vllm:request_success_total", Real64::from_whole(500));
    push_metric(&mut ms, "vllm:num_preemptions_total", Real64::from_whole(5));
    push_metric(&mut ms, "vllm:prefix_cache_hits_total", Real64::from_whole(320_000));
    push_metric(&mut ms, "vllm:prefix_cache_queries_total", Real64::from_whole(860_000));
    push_metric(&mut ms, "vllm:process_cpu_seconds_total", Real64::from_whole(7200));
    push_metric(&mut ms, "vllm:process_resident_memory_bytes", Real64::from_whole(14_000_000_000));
    push_metric(&mut ms, "vllm:process_virtual_memory_bytes", Real64::from_whole(20_000_000_000));
    ms
}

/// The metrics that the mock sglang server reports.
fn sglang_metrics() -> (r: Vec<(String, Real64)>)
    ensures
        metric_views(r@) == mock_sglang_metrics(),
{
    let mut ms: Vec<(String, Real64)> = Vec::new();
    assert(metric_views(ms@) =~= Seq::empty());
    push_metric(&mut ms, "sglang:num_requests_running", Real64::from_whole(2));
    push_metric(&mut ms, "sglang:num_requests_waiting", Real64::from_whole(1));
    push_metric(&mut ms, "sglang:kv_cache_usage_perc", Real64 { bits: SGLANG_KV_CACHE_BITS });
    push_metric(&mut ms, "sglang:generation_tokens_total", Real64::from_whole(980_000));
    push_metric(&mut ms, "sglang:prompt_tokens_total", Real64::from_whole(640_000));
    push_metric(&mut ms, "sglang:prompt_tokens_cached_total", Real64::from_whole(210_000));
    push_metric(&mut ms, "sglang:time_to_first_token_seconds_sum", Real64::from_whole(320));
    push_metric(&mut ms, "sglang:time_to_first_token_seconds_count", Real64::from_whole(400));
    push_metric(&mut ms, "sglang:time_to_first_token_seconds_bucket{le=\"0.01\"}", Real64::from_whole(0));
    push_metric(&mut ms, "sglang:time_to_first_token_seconds_bucket{le=\"0.05\"}", Real64::from_whole(5));
    push_metric(&mut ms, "sglang:time_to_first_token_seconds_bucket{le=\"0.1\"}", Real64::from_whole(60));
    push_metric(&mut ms, "sglang:time_to_first_token_seconds_bucket{le=\"0.25\"}", Real64::from_whole(180));
    push_metric(&mut ms, "sglang:time_to_first_token_seconds_bucket{le=\"0.5\"}", Real64::from_whole(300));
    push_metric(&mut ms, "sglang:time_to_first_token_seconds_bucket{le=\"1.0\"}", Real64::from_whole(380));
    push_metric(&mut ms, "sglang:time_to_first_token_seconds_bucket{le=\"+Inf\"}", Real64::from_whole(400));
    push_metric(&mut ms, "sglang:inter_token_latency_seconds_sum", Real64::from_whole(900));
    push_metric(&mut ms, "sglang:inter_token_latency_seconds_count", Real64::from_whole(6000));
    push_metric(&mut ms, "sglang:inter_token_latency_seconds_bucket{le=\"0.01\"}", Real64::from_whole(50));
    push_metric(&mut ms, "sglang:inter_token_latency_seconds_bucket{le=\"0.05\"}", Real64::from_whole(800));
    push_metric(&mut ms, "sglang:inter_token_latency_seconds_bucket{le=\"0.1\"}", Real64::from_whole(2500));
    push_metric(&mut ms, "sglang:inter_token_latency_seconds_bucket{le=\"0.25\"}", Real64::from_whole(4800));
    push_metric(&mut ms, "sglang:inter_token_latency_seconds_bucket{le=\"0.5\"}", Real64::from_whole(5700));
    push_metric(&mut ms, "sglang:inter_token_latency_seconds_bucket{le=\"1.0\"}", Real64::from_whole(5950));
    push_metric(&mut ms, "sglang:inter_token_latency_seconds_bucket{le=\"+Inf\"}", Real64::from_whole(6000));
    push_metric(&mut ms, "sglang:request_success_total", Real64::from_whole(400));
    push_metric(&mut ms, "sglang:num_preemptions_total", Real64::from_whole(3));
    push_metric(&mut ms, "sglang:prefix_cache_hits_total", Real64::from_whole(210_000));
    push_metric(&mut ms, "sglang:prefix_cache_queries_total", Real64::from_whole(640_000));
    push_metric(&mut ms, "sglang:process_cpu_seconds_total", Real64::from_whole(5400));
    push_metric(&mut ms, "sglang:process_resident_memory_bytes", Real64::from_whole(28_000_000_000));
    push_metric(&mut ms, "sglang:process_virtual_memory_bytes", Real64::from_whole(35_000_000_000));
    ms
}

/// Mock GPU `i`.
fn mock_gpu(i: u32) -> (g: GpuSample)
    requires
        i < 8,
    ensures
        is_mock_gpu(g, i as nat),
{
    let mut uuid = owned("GPU-");
    push_decimal(&mut uuid, i as u64);
    append_str(&mut uuid, "-mock");
    let mut pstate = owned("P");
    push_decimal(&mut pstate, i as u64);
    GpuSample {
        index: i,
        uuid,
        name: owned("NVIDIA DGX H200 Mock"),
        utilization_gpu: 40 + i * 5,
        utilization_memory: 50,
        temperature_c: 55 + i,
        power_w: Some(Real32::from_halves(350 + i * 10, 0)),
        power_limit_w: Some(Real32::from_halves(700, 0)),
        memory_used_mb: Some(40_000 + i as u64 * 5_000),
        memory_total_mb: Some(140_000),
        fan_speed_pct: Some(60),
        pstate,
        sm_clock_mhz: Some(1_800 + i * 10),
        mem_clock_mhz: Some(2_600),
        sm_clock_max_mhz: Some(1_980),
        mem_clock_max_mhz: Some(2_600),
        mem_temp_c: Some(60 + i),
        pcie_link_gen: Some(5),
        pcie_link_gen_max: Some(5),
        pcie_link_width: Some(16),
        pcie_link_width_max: Some(16),
        throttle_active: 0,
        throttle_hw_thermal: false,
        throttle_sw_thermal: false,
        throttle_hw_slowdown: false,
        throttle_power_brake: false,
    }
}

/// Mock CPU core `i`.
fn mock_core(i: u32) -> (c: CpuCoreSample)
    requires
        i < 64,
    ensures
        is_mock_core(c, i as nat),
{
    CpuCoreSample {
        index: i,
        usage_pct: Real32::from_halves(5 + i % 20, 0),
        freq_mhz: Some(2800),
        governor: Some(owned("performance")),
        max_freq_mhz: Some(3900),
    }
}

/// A mock network interface that is up.
fn mock_net(
    interface: &str,
    role: &str,
    rx_bytes: u64,
    tx_bytes: u64,
    rx_packets: u64,
    tx_packets: u64,
    speed: u64,
) -> (n: NetSample)
    ensures
        is_mock_net(
            n,
            interface@,
            role@,
            rx_bytes as nat,
            tx_bytes as nat,
            rx_packets as nat,
            tx_packets as nat,
            speed as nat,
        ),
{
    NetSample {
        interface: owned(interface),
        role: owned(role),
        rx_bytes,
        tx_bytes,
        rx_packets,
        tx_packets,
        speed_mbps: Some(speed),
        up: true,
    }
}

/// The mock host.
fn mock_host() -> (h: HostSample)
    ensures
        is_mock_host(h),
{
    let mut cpu_cores: Vec<CpuCoreSample> = Vec::new();
    let mut i: u32 = 0;
    while i < 64
        invariant
            i <= 64,
            cpu_cores@.len() == i,
            forall|j: int| 0 <= j < i ==> is_mock_core(#[trigger] cpu_cores@[j], j as nat),
        decreases 64 - i,
    {
        cpu_cores.push(mock_core(i));
        i = i + 1;
    }
    let mut networks: Vec<NetSample> = Vec::new();
    networks.push(mock_net("eth0", "main", 1_000_000, 2_000_000, 10_000, 20_000, 1000));
    networks.push(
        mock_net("enp1s0f0np0", "cluster", 50_000_000, 60_000_000, 500_000, 600_000, 200_000),
    );
    networks.push(
        mock_net("enp1s0f1np1", "cluster", 55_000_000, 65_000_000, 550_000, 650_000, 200_000),
    );
    HostSample {
        hostname: owned("mock-dgx-spark"),
        cpu_usage_pct: Real32::from_halves(25, 1),
        memory_used_mb: 64_000,
        memory_total_mb: 512_000,
        disk_used_gb: Real64::from_whole(1_200),
        disk_total_gb: Real64::from_whole(15_000),
        network_rx_bytes: 1_000_000,
        network_tx_bytes: 2_000_000,
        uptime_seconds: 86400,
        cpu_cores,
        networks,
    }
}

impl MockCollector {
    /// The collector's name.
    pub fn name(&self) -> (r: &'static str)
        ensures
            r@ == "mock"@,
    {
        "mock"
    }

    /// The mock snapshot, stamped with `timestamp`. The role of each mock
    /// interface is the one its name reveals.
    pub fn collect(&self, timestamp: Timestamp) -> (r: Snapshot)
        ensures
            is_mock_snapshot(r, timestamp),
            r.extra_distinct(),
            forall|k: int|
                0 <= k < r.host.networks@.len() ==> (#[trigger] r.host.networks@[k]).role@
                    == spec_detect_role(r.host.networks@[k].interface@),
    {
        let mut gpus: Vec<GpuSample> = Vec::new();
        let mut i: u32 = 0;
        while i < 8
            invariant
                i <= 8,
                gpus@.len() == i,
                forall|j: int| 0 <= j < i ==> is_mock_gpu(#[trigger] gpus@[j], j as nat),
            decreases 8 - i,
        {
            gpus.push(mock_gpu(i));
            i = i + 1;
        }
        let mut inference: Vec<InferenceSample> = Vec::new();
        inference.push(
            InferenceSample {
                engine: owned("vllm"),
                model_name: owned("llama-3.1-8b-instruct"),
                metrics: vllm_metrics(),
            },
        );
        inference.push(
            InferenceSample {
                engine: owned("sglang"),
                model_name: owned("qwen2.5-32b"),
                metrics: sglang_metrics(),
            },
        );
        let host = mock_host();
        proof {
            reveal_strlit("eth0");
            reveal_strlit("eth");
            reveal_strlit("enp1s0f");
            reveal_strlit("enP2p1s0f");
            reveal_strlit("enp1s0f0np0");
            reveal_strlit("enp1s0f1np1");
            reveal_strlit("main");
            reveal_strlit("cluster");
            assert("eth0"@.subrange(0, 3) =~= "eth"@);
            assert("enp1s0f0np0"@.subrange(0, 7) =~= "enp1s0f"@);
            assert("enp1s0f1np1"@.subrange(0, 7) =~= "enp1s0f"@);
        }
        Snapshot { timestamp, host, gpus, inference, extra: Vec::new() }
    }
}

} // verus!
