//! The data model of one collection cycle: host, GPU, network and inference
//! samples.
//!
//! Measured real numbers are carried by their IEEE-754 bit patterns
//! (`Real32`, `Real64`): the library moves them around and never does
//! arithmetic on them; it writes only exact readings of its own (whole
//! numbers over a power of two, as the mock collector needs).
use vstd::prelude::*;
use vstd::arithmetic::power2::{pow2, lemma2_to64, lemma2_to64_rest, lemma_pow2_unfold};

pub mod mock;
pub mod nvidia;

pub use mock::MockCollector;

use crate::table::keys_distinct;

verus! {

/// A single-precision reading, held by its bit pattern.
#[derive(Clone, Copy, Debug, PartialEq, Eq, Structural)]
pub struct Real32 {
    pub bits: u32,
}

/// A double-precision reading, held by its bit pattern.
#[derive(Clone, Copy, Debug, PartialEq, Eq, Structural)]
pub struct Real64 {
    pub bits: u64,
}

/// The bits of the positive single-precision number `m * 2^(e - 150)`,
/// found by doubling `m` (and lowering `e`) until its leading one stands at
/// bit 23, the hidden bit; the biased exponent field is then `e` and the
/// fraction field `m - 2^23`. A zero `m` gives positive zero.
pub open spec fn f32_bits(m: nat, e: int) -> int
    decreases 0x100_0000 - m,
{
    if m == 0 {
        0
    } else if m >= 0x80_0000 {
        e * 0x80_0000 + (m - 0x80_0000)
    } else {
        f32_bits(m * 2, e - 1)
    }
}

/// The bits of the positive double-precision number `m * 2^(e - 1075)`,
/// normalised as in `f32_bits`, with the hidden bit at bit 52.
pub open spec fn f64_bits(m: nat, e: int) -> int
    decreases 0x20_0000_0000_0000 - m,
{
    if m == 0 {
        0
    } else if m >= 0x10_0000_0000_0000 {
        e * 0x10_0000_0000_0000 + (m - 0x10_0000_0000_0000)
    } else {
        f64_bits(m * 2, e - 1)
    }
}

/// The single-precision reading `n / 2^h`.
pub open spec fn spec_real32(n: nat, h: nat) -> Real32 {
    Real32 { bits: f32_bits(n, 150 - h) as u32 }
}

/// The double-precision reading of the whole number `n`.
pub open spec fn spec_real64(n: nat) -> Real64 {
    Real64 { bits: f64_bits(n, 1075) as u64 }
}

impl Real32 {
    /// The reading `n / 2^halvings`, which single precision holds exactly
    /// since `n` has at most 24 significant bits.
    pub fn from_halves(n: u32, halvings: u32) -> (r: Real32)
        requires
            n < 0x100_0000,
            halvings <= 100,
        ensures
            r == spec_real32(n as nat, halvings as nat),
    {
        if n == 0 {
            return Real32 { bits: 0 };
        }
        let mut m: u32 = n;
        let mut e: u32 = 150 - halvings;
        let ghost d: nat = 0;
        proof {
            lemma2_to64();
        }
        while m < 0x80_0000
            invariant
                halvings <= 100,
                0 < m < 0x100_0000,
                e + d == 150 - halvings,
                d <= 23,
                m >= pow2(d),
                f32_bits(m as nat, e as int) == f32_bits(n as nat, 150 - halvings),
            decreases 0x100_0000 - m,
        {
            proof {
                lemma2_to64();
                lemma_pow2_unfold(d + 1);
            }
            m = m * 2;
            e = e - 1;
            proof {
                d = d + 1;
            }
        }
        Real32 { bits: e * 0x80_0000 + (m - 0x80_0000) }
    }
}

impl Real64 {
    /// The reading of the whole number `n`, which double precision holds
    /// exactly since `n` has at most 53 significant bits.
    pub fn from_whole(n: u64) -> (r: Real64)
        requires
            n < 0x20_0000_0000_0000,
        ensures
            r == spec_real64(n as nat),
    {
        if n == 0 {
            return Real64 { bits: 0 };
        }
        let mut m: u64 = n;
        let mut e: u64 = 1075;
        let ghost d: nat = 0;
        proof {
            lemma2_to64();
        }
        while m < 0x10_0000_0000_0000
            invariant
                0 < m < 0x20_0000_0000_0000,
                e + d == 1075,
                d <= 52,
                m >= pow2(d),
                f64_bits(m as nat, e as int) == f64_bits(n as nat, 1075),
            decreases 0x20_0000_0000_0000 - m,
        {
            proof {
                lemma2_to64();
                lemma2_to64_rest();
                lemma_pow2_unfold(d + 1);
            }
            m = m * 2;
            e = e - 1;
            proof {
                d = d + 1;
            }
        }
        Real64 { bits: e * 0x10_0000_0000_0000 + (m - 0x10_0000_0000_0000) }
    }
}

/// A point in time: whole seconds since the Unix epoch and the nanoseconds
/// into that second (past 999,999,999 only during a leap second).
#[derive(Clone, Copy, Debug, PartialEq, Eq, Structural)]
pub struct Timestamp {
    pub secs: i64,
    pub nanos: u32,
}

impl Timestamp {
    /// The instant can be counted in milliseconds in an `i64`.
    pub open spec fn in_range(self) -> bool {
        -9_223_372_036_854_775 <= self.secs <= 9_223_372_036_854_770
    }

    /// Milliseconds since the Unix epoch, leap milliseconds not counted
    /// apart (`secs * 1000 + nanos / 1_000_000`).
    pub open spec fn spec_millis(self) -> int {
        self.secs * 1000 + self.nanos / 1_000_000
    }

    /// Milliseconds since the Unix epoch.
    pub fn millis(&self) -> (r: i64)
        requires
            self.in_range(),
        ensures
            r == self.spec_millis(),
    {
        self.secs * 1000 + (self.nanos / 1_000_000) as i64
    }
}

/// A single GPU sample.
#[derive(Clone, Debug)]
pub struct GpuSample {
    pub index: u32,
    pub uuid: String,
    pub name: String,
    pub utilization_gpu: u32,
    pub utilization_memory: u32,
    pub temperature_c: u32,
    pub power_w: Option<Real32>,
    pub power_limit_w: Option<Real32>,
    pub memory_used_mb: Option<u64>,
    pub memory_total_mb: Option<u64>,
    pub fan_speed_pct: Option<u32>,
    pub pstate: String,
    /// SM (compute) clock in MHz.
    pub sm_clock_mhz: Option<u32>,
    /// Memory clock in MHz.
    pub mem_clock_mhz: Option<u32>,
    /// Maximum SM clock in MHz.
    pub sm_clock_max_mhz: Option<u32>,
    /// Maximum memory clock in MHz.
    pub mem_clock_max_mhz: Option<u32>,
    /// Memory temperature in Celsius.
    pub mem_temp_c: Option<u32>,
    /// Current PCIe link generation.
    pub pcie_link_gen: Option<u32>,
    /// Maximum PCIe link generation.
    pub pcie_link_gen_max: Option<u32>,
    /// Current PCIe link width in lanes.
    pub pcie_link_width: Option<u32>,
    /// Maximum PCIe link width in lanes.
    pub pcie_link_width_max: Option<u32>,
    /// Active clock-throttle reasons, as a bitmask.
    pub throttle_active: u64,
    /// Hardware thermal slowdown is active.
    pub throttle_hw_thermal: bool,
    /// Software thermal slowdown is active.
    pub throttle_sw_thermal: bool,
    /// Hardware slowdown is active.
    pub throttle_hw_slowdown: bool,
    /// Hardware power-brake slowdown is active.
    pub throttle_power_brake: bool,
}

/// Per-CPU-core sample.
#[derive(Clone, Debug)]
pub struct CpuCoreSample {
    pub index: u32,
    pub usage_pct: Real32,
    /// Current frequency in MHz.
    pub freq_mhz: Option<u32>,
    /// Scaling governor.
    pub governor: Option<String>,
    /// Maximum frequency in MHz.
    pub max_freq_mhz: Option<u32>,
}

/// Per-interface network sample.
#[derive(Clone, Debug)]
pub struct NetSample {
    pub interface: String,
    /// Role of the interface: main, cluster, or other.
    pub role: String,
    pub rx_bytes: u64,
    pub tx_bytes: u64,
    pub rx_packets: u64,
    pub tx_packets: u64,
    pub speed_mbps: Option<u64>,
    pub up: bool,
}

/// Inference server sample (sglang or vLLM).
#[derive(Clone, Debug)]
pub struct InferenceSample {
    /// Engine name: sglang or vllm.
    pub engine: String,
    /// Model name served by the engine.
    pub model_name: String,
    /// Scraped Prometheus metrics as (name, value) pairs.
    pub metrics: Vec<(String, Real64)>,
}

/// System-level metrics that surround the GPUs.
#[derive(Clone, Debug)]
pub struct HostSample {
    pub hostname: String,
    pub cpu_usage_pct: Real32,
    pub memory_used_mb: u64,
    pub memory_total_mb: u64,
    pub disk_used_gb: Real64,
    pub disk_total_gb: Real64,
    pub network_rx_bytes: u64,
    pub network_tx_bytes: u64,
    pub uptime_seconds: u64,
    /// Per-CPU-core utilization.
    pub cpu_cores: Vec<CpuCoreSample>,
    /// Per-interface network utilization.
    pub networks: Vec<NetSample>,
}

/// The complete snapshot for one collection cycle.
#[derive(Clone, Debug)]
pub struct Snapshot {
    pub timestamp: Timestamp,
    pub host: HostSample,
    pub gpus: Vec<GpuSample>,
    /// Inference metrics scraped from local sglang/vLLM servers.
    pub inference: Vec<InferenceSample>,
    /// Extra labels attached by the collector config (cluster, rack, etc.),
    /// one entry per label name.
    pub extra: Vec<(String, String)>,
}

impl Snapshot {
    /// No extra label name occurs twice.
    pub open spec fn extra_distinct(&self) -> bool {
        keys_distinct(self.extra@)
    }
}

} // verus!
