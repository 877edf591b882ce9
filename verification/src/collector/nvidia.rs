//! Parsing of NVIDIA `nvidia-smi --query-gpu ... --format=csv` output.
//!
//! Some fields may read `[N/A]` on certain hardware (e.g. DGX Spark GB10
//! reports no memory or power-limit values). Those fields become `None` in
//! the sample.
use vstd::prelude::*;

use crate::collector::{GpuSample, Real32};
use crate::number::{parse_unsigned, spec_parse_unsigned};
use crate::text::{
    chars_eq, chars_of, has_prefix, lines, lines_of, split_by, split_pattern, starts_with, trim,
    trim_chars, views, join,
};

verus! {

/// CSV columns requested from nvidia-smi, in order.
pub const QUERY: &'static str = "index,uuid,name,utilization.gpu,utilization.memory,temperature.gpu,power.draw,power.limit,memory.used,memory.total,fan.speed,pstate,clocks.sm,clocks.mem,clocks.max.sm,clocks.max.mem,temperature.memory,pcie.link.gen.current,pcie.link.gen.max,pcie.link.width.current,pcie.link.width.max,clocks_throttle_reasons.active";

/// The number of columns a GPU line must have.
pub const GPU_COLUMNS: usize = 22;

/// The text nvidia-smi prints for a value it cannot read.
pub open spec fn not_available() -> Seq<char> {
    "[N/A]"@
}

/// The text reads as "no value": `[N/A]` or nothing, once trimmed.
pub open spec fn reads_as_missing(s: Seq<char>) -> bool {
    trim(s) == not_available() || trim(s).len() == 0
}

/// An unsigned decimal field: the trimmed text parsed, 0 when it does not parse.
pub open spec fn spec_parse_or_zero(s: Seq<char>, max: nat) -> nat {
    match spec_parse_unsigned(trim(s), 10, max) {
        Some(v) => v,
        None => 0,
    }
}

/// An optional unsigned decimal field: none when it reads as missing or
/// does not parse.
pub open spec fn spec_parse_opt(s: Seq<char>, max: nat) -> Option<nat> {
    if reads_as_missing(s) {
        None
    } else {
        spec_parse_unsigned(trim(s), 10, max)
    }
}

/// A hexadecimal bitmask field, with or without `0x`: 0 when it reads as
/// missing or does not parse.
pub open spec fn spec_parse_hex(s: Seq<char>) -> nat {
    if reads_as_missing(s) {
        0
    } else {
        let t = trim(s);
        let digits = if has_prefix(t, "0x"@) {
            t.skip(2)
        } else {
            t
        };
        match spec_parse_unsigned(digits, 16, u64::MAX as nat) {
            Some(v) => v,
            None => 0,
        }
    }
}

/// `o` with its number narrowed to `u32`.
pub open spec fn opt_u32(o: Option<nat>) -> Option<u32> {
    match o {
        Some(v) => Some(v as u32),
        None => None,
    }
}

/// `o` with its number narrowed to `u64`.
pub open spec fn opt_u64(o: Option<nat>) -> Option<u64> {
    match o {
        Some(v) => Some(v as u64),
        None => None,
    }
}

/// Whether the trimmed text reads as missing.
fn is_missing(t: &Vec<char>) -> (r: bool)
    ensures
        r == (t@ == not_available() || t@.len() == 0),
{
    let na = chars_of("[N/A]");
    t.len() == 0 || chars_eq(t, &na)
}

/// Parse an unsigned decimal field; 0 when it does not parse.
pub fn parse_u32(s: &str) -> (r: u32)
    ensures
        r == spec_parse_or_zero(s@, u32::MAX as nat),
{
    let t = trim_chars(&chars_of(s));
    match parse_unsigned(&t, 10, u32::MAX as u64) {
        Some(v) => v as u32,
        None => 0,
    }
}

/// Parse an optional unsigned decimal field of 32 bits.
pub fn parse_opt_u32(s: &str) -> (r: Option<u32>)
    ensures
        r == opt_u32(spec_parse_opt(s@, u32::MAX as nat)),
{
    let t = trim_chars(&chars_of(s));
    if is_missing(&t) {
        return None;
    }
    match parse_unsigned(&t, 10, u32::MAX as u64) {
        Some(v) => Some(v as u32),
        None => None,
    }
}

/// Parse an optional unsigned decimal field of 64 bits.
pub fn parse_opt_u64(s: &str) -> (r: Option<u64>)
    ensures
        r == opt_u64(spec_parse_opt(s@, u64::MAX as nat)),
{
    let t = trim_chars(&chars_of(s));
    if is_missing(&t) {
        return None;
    }
    parse_unsigned(&t, 10, u64::MAX)
}

/// Parse a hexadecimal bitmask field such as `0x0000000000000004`.
pub fn parse_hex_u64(s: &str) -> (r: u64)
    ensures
        r == spec_parse_hex(s@),
{
    let t = trim_chars(&chars_of(s));
    if is_missing(&t) {
        return 0;
    }
    let ox = chars_of("0x");
    proof {
        reveal_strlit("0x");
    }
    let digits: Vec<char> = if starts_with(&t, &ox) {
        let mut d: Vec<char> = Vec::new();
        let mut i: usize = 2;
        while i < t.len()
            invariant
                2 <= i <= t.len(),
                d@ == t@.subrange(2, i as int),
            decreases t.len() - i,
        {
            d.push(t[i]);
            i = i + 1;
        }
        assert(d@ =~= t@.skip(2));
        d
    } else {
        t
    };
    match parse_unsigned(&digits, 16, u64::MAX) {
        Some(v) => v,
        None => 0,
    }
}

/// Whether `bit` is set in `mask`.
pub fn parse_bool_from_bitmask(mask: u64, bit: u64) -> (r: bool)
    ensures
        r == (mask & bit != 0),
{
    mask & bit != 0
}

/// The role that an interface's name reveals on a DGX Spark.
pub open spec fn spec_detect_role(name: Seq<char>) -> Seq<char> {
    if has_prefix(name, "enp1s0f"@) || has_prefix(name, "enP2p1s0f"@) {
        "cluster"@
    } else if has_prefix(name, "eth"@) || has_prefix(name, "enP7s7"@) || has_prefix(name, "eno"@)
        || has_prefix(name, "ens"@) {
        "main"@
    } else {
        "other"@
    }
}

/// Auto-detect the role of a network interface from its name.
/// DGX Spark naming patterns:
/// - cluster: ConnectX-7 interfaces like enp1s0f0np0, enP2p1s0f0np0.
/// - main: onboard ethernet like eth0, enP7s7, eno, ens.
pub fn detect_role(name: &str) -> (r: &'static str)
    ensures
        r@ == spec_detect_role(name@),
{
    let n = chars_of(name);
    if starts_with(&n, &chars_of("enp1s0f")) || starts_with(&n, &chars_of("enP2p1s0f")) {
        "cluster"
    } else if starts_with(&n, &chars_of("eth")) || starts_with(&n, &chars_of("enP7s7"))
        || starts_with(&n, &chars_of("eno")) || starts_with(&n, &chars_of("ens")) {
        "main"
    } else {
        "other"
    }
}

/// The columns of one nvidia-smi CSV line, as separated by `", "`.
pub fn gpu_columns(line: &str) -> (r: Vec<String>)
    ensures
        views(r@) == split_pattern(line@, ", "@),
{
    let sep = chars_of(", ");
    proof {
        reveal_strlit(", ");
    }
    split_by(&chars_of(line), &sep)
}

/// The columns of each line of nvidia-smi output, line by line.
pub open spec fn column_lists(stdout: Seq<char>) -> Seq<Seq<Seq<char>>> {
    lines(stdout).map_values(|l: Seq<char>| split_pattern(l, ", "@))
}

/// A column list long enough to describe a GPU.
pub open spec fn is_gpu_row(cols: Seq<Seq<char>>) -> bool {
    cols.len() >= GPU_COLUMNS
}

/// The column lists of the lines of nvidia-smi output that describe a GPU
/// (shorter lines are skipped), in order.
pub open spec fn spec_gpu_rows(stdout: Seq<char>) -> Seq<Seq<Seq<char>>> {
    column_lists(stdout).filter(|c: Seq<Seq<char>>| is_gpu_row(c))
}

/// The column lists of the lines of nvidia-smi output that describe a GPU.
pub fn gpu_rows(stdout: &str) -> (r: Vec<Vec<String>>)
    ensures
        r@.map_values(|c: Vec<String>| views(c@)) == spec_gpu_rows(stdout@),
        forall|i: int| 0 <= i < r@.len() ==> (#[trigger] r@[i]).len() >= GPU_COLUMNS,
{
    let ls = lines_of(&chars_of(stdout));
    let ghost all = column_lists(stdout@);
    let ghost p = |c: Seq<Seq<char>>| is_gpu_row(c);
    let mut out: Vec<Vec<String>> = Vec::new();
    let mut i: usize = 0;
    while i < ls.len()
        invariant
            i <= ls@.len(),
            views(ls@) == lines(stdout@),
            all == column_lists(stdout@),
            p == (|c: Seq<Seq<char>>| is_gpu_row(c)),
            out@.map_values(|c: Vec<String>| views(c@)) == all.take(i as int).filter(p),
            forall|j: int| 0 <= j < out@.len() ==> (#[trigger] out@[j]).len() >= GPU_COLUMNS,
        decreases ls.len() - i,
    {
        let cols = gpu_columns(ls[i].as_str());
        proof {
            assert(all[i as int] == views(cols@));
            assert(all.take(i + 1) =~= all.take(i as int).push(all[i as int]));
            all.take(i as int).lemma_filter_push(all[i as int], p);
        }
        if cols.len() >= GPU_COLUMNS {
            let ghost before = out@;
            out.push(cols);
            proof {
                assert(out@.map_values(|c: Vec<String>| views(c@)) =~= before.map_values(
                    |c: Vec<String>| views(c@),
                ).push(all[i as int]));
            }
        }
        i = i + 1;
    }
    assert(all.take(all.len() as int) =~= all);
    out
}

/// The sample `g` is what the columns `cols` of one nvidia-smi line say, with
/// the power readings given apart.
pub open spec fn gpu_matches_columns(
    g: GpuSample,
    cols: Seq<Seq<char>>,
    power_w: Option<Real32>,
    power_limit_w: Option<Real32>,
) -> bool {
    let throttle = spec_parse_hex(cols[21]) as u64;
    &&& g.index == spec_parse_or_zero(cols[0], u32::MAX as nat)
    &&& g.uuid@ == trim(cols[1])
    &&& g.name@ == trim(cols[2])
    &&& g.utilization_gpu == spec_parse_or_zero(cols[3], u32::MAX as nat)
    &&& g.utilization_memory == spec_parse_or_zero(cols[4], u32::MAX as nat)
    &&& g.temperature_c == spec_parse_or_zero(cols[5], u32::MAX as nat)
    &&& g.power_w == power_w
    &&& g.power_limit_w == power_limit_w
    &&& g.memory_used_mb == opt_u64(spec_parse_opt(cols[8], u64::MAX as nat))
    &&& g.memory_total_mb == opt_u64(spec_parse_opt(cols[9], u64::MAX as nat))
    &&& g.fan_speed_pct == opt_u32(spec_parse_opt(cols[10], u32::MAX as nat))
    &&& g.pstate@ == trim(cols[11])
    &&& g.sm_clock_mhz == opt_u32(spec_parse_opt(cols[12], u32::MAX as nat))
    &&& g.mem_clock_mhz == opt_u32(spec_parse_opt(cols[13], u32::MAX as nat))
    &&& g.sm_clock_max_mhz == opt_u32(spec_parse_opt(cols[14], u32::MAX as nat))
    &&& g.mem_clock_max_mhz == opt_u32(spec_parse_opt(cols[15], u32::MAX as nat))
    &&& g.mem_temp_c == opt_u32(spec_parse_opt(cols[16], u32::MAX as nat))
    &&& g.pcie_link_gen == opt_u32(spec_parse_opt(cols[17], u32::MAX as nat))
    &&& g.pcie_link_gen_max == opt_u32(spec_parse_opt(cols[18], u32::MAX as nat))
    &&& g.pcie_link_width == opt_u32(spec_parse_opt(cols[19], u32::MAX as nat))
    &&& g.pcie_link_width_max == opt_u32(spec_parse_opt(cols[20], u32::MAX as nat))
    &&& g.throttle_active == throttle
    &&& g.throttle_hw_thermal == (throttle & 0x10 != 0)
    &&& g.throttle_sw_thermal == (throttle & 0x40 != 0)
    &&& g.throttle_hw_slowdown == (throttle & 0x8 != 0)
    &&& g.throttle_power_brake == (throttle & 0x20 != 0)
}

/// The fields that nvidia-smi is asked for, in the order of `QUERY`.
pub open spec fn query_fields() -> Seq<Seq<char>> {
    seq![
        "index"@,
        "uuid"@,
        "name"@,
        "utilization.gpu"@,
        "utilization.memory"@,
        "temperature.gpu"@,
        "power.draw"@,
        "power.limit"@,
        "memory.used"@,
        "memory.total"@,
        "fan.speed"@,
        "pstate"@,
        "clocks.sm"@,
        "clocks.mem"@,
        "clocks.max.sm"@,
        "clocks.max.mem"@,
        "temperature.memory"@,
        "pcie.link.gen.current"@,
        "pcie.link.gen.max"@,
        "pcie.link.width.current"@,
        "pcie.link.width.max"@,
        "clocks_throttle_reasons.active"@,
    ]
}

/// `QUERY` asks for exactly the fields of `query_fields`, separated by
/// commas.
pub proof fn law_query_lists_fields()
    ensures
        QUERY@ == join(query_fields(), ","@),
{
    reveal_strlit("index");
    reveal_strlit("uuid");
    reveal_strlit("name");
    reveal_strlit("utilization.gpu");
    reveal_strlit("utilization.memory");
    reveal_strlit("temperature.gpu");
    reveal_strlit("power.draw");
    reveal_strlit("power.limit");
    reveal_strlit("memory.used");
    reveal_strlit("memory.total");
    reveal_strlit("fan.speed");
    reveal_strlit("pstate");
    reveal_strlit("clocks.sm");
    reveal_strlit("clocks.mem");
    reveal_strlit("clocks.max.sm");
    reveal_strlit("clocks.max.mem");
    reveal_strlit("temperature.memory");
    reveal_strlit("pcie.link.gen.current");
    reveal_strlit("pcie.link.gen.max");
    reveal_strlit("pcie.link.width.current");
    reveal_strlit("pcie.link.width.max");
    reveal_strlit("clocks_throttle_reasons.active");
    reveal_strlit(",");
    reveal_strlit("index,uuid,name,utilization.gpu,utilization.memory,temperature.gpu,power.draw,power.limit,memory.used,memory.total,fan.speed,pstate,clocks.sm,clocks.mem,clocks.max.sm,clocks.max.mem,temperature.memory,pcie.link.gen.current,pcie.link.gen.max,pcie.link.width.current,pcie.link.width.max,clocks_throttle_reasons.active");
    let f = query_fields();
    let sep = ","@;
    assert(f.take(1).len() == 1 && f.take(1)[0] == f[0]);
    assert(join(f.take(1), sep) == "index"@);
    assert(f.take(2).drop_last() =~= f.take(1) && f.take(2).last() == f[1]);
    assert(join(f.take(2), sep) == join(f.take(1), sep) + sep + "uuid"@);
    assert(f.take(3).drop_last() =~= f.take(2) && f.take(3).last() == f[2]);
    assert(join(f.take(3), sep) == join(f.take(2), sep) + sep + "name"@);
    assert(f.take(4).drop_last() =~= f.take(3) && f.take(4).last() == f[3]);
    assert(join(f.take(4), sep) == join(f.take(3), sep) + sep + "utilization.gpu"@);
    assert(f.take(5).drop_last() =~= f.take(4) && f.take(5).last() == f[4]);
    assert(join(f.take(5), sep) == join(f.take(4), sep) + sep + "utilization.memory"@);
    assert(f.take(6).drop_last() =~= f.take(5) && f.take(6).last() == f[5]);
    assert(join(f.take(6), sep) == join(f.take(5), sep) + sep + "temperature.gpu"@);
    assert(f.take(7).drop_last() =~= f.take(6) && f.take(7).last() == f[6]);
    assert(join(f.take(7), sep) == join(f.take(6), sep) + sep + "power.draw"@);
    assert(f.take(8).drop_last() =~= f.take(7) && f.take(8).last() == f[7]);
    assert(join(f.take(8), sep) == join(f.take(7), sep) + sep + "power.limit"@);
    assert(f.take(9).drop_last() =~= f.take(8) && f.take(9).last() == f[8]);
    assert(join(f.take(9), sep) == join(f.take(8), sep) + sep + "memory.used"@);
    assert(f.take(10).drop_last() =~= f.take(9) && f.take(10).last() == f[9]);
    assert(join(f.take(10), sep) == join(f.take(9), sep) + sep + "memory.total"@);
    assert(f.take(11).drop_last() =~= f.take(10) && f.take(11).last() == f[10]);
    assert(join(f.take(11), sep) == join(f.take(10), sep) + sep + "fan.speed"@);
    assert(f.take(12).drop_last() =~= f.take(11) && f.take(12).last() == f[11]);
    assert(join(f.take(12), sep) == join(f.take(11), sep) + sep + "pstate"@);
    assert(f.take(13).drop_last() =~= f.take(12) && f.take(13).last() == f[12]);
    assert(join(f.take(13), sep) == join(f.take(12), sep) + sep + "clocks.sm"@);
    assert(f.take(14).drop_last() =~= f.take(13) && f.take(14).last() == f[13]);
    assert(join(f.take(14), sep) == join(f.take(13), sep) + sep + "clocks.mem"@);
    assert(f.take(15).drop_last() =~= f.take(14) && f.take(15).last() == f[14]);
    assert(join(f.take(15), sep) == join(f.take(14), sep) + sep + "clocks.max.sm"@);
    assert(f.take(16).drop_last() =~= f.take(15) && f.take(16).last() == f[15]);
    assert(join(f.take(16), sep) == join(f.take(15), sep) + sep + "clocks.max.mem"@);
    assert(f.take(17).drop_last() =~= f.take(16) && f.take(17).last() == f[16]);
    assert(join(f.take(17), sep) == join(f.take(16), sep) + sep + "temperature.memory"@);
    assert(f.take(18).drop_last() =~= f.take(17) && f.take(18).last() == f[17]);
    assert(join(f.take(18), sep) == join(f.take(17), sep) + sep + "pcie.link.gen.current"@);
    assert(f.take(19).drop_last() =~= f.take(18) && f.take(19).last() == f[18]);
    assert(join(f.take(19), sep) == join(f.take(18), sep) + sep + "pcie.link.gen.max"@);
    assert(f.take(20).drop_last() =~= f.take(19) && f.take(20).last() == f[19]);
    assert(join(f.take(20), sep) == join(f.take(19), sep) + sep + "pcie.link.width.current"@);
    assert(f.take(21).drop_last() =~= f.take(20) && f.take(21).last() == f[20]);
    assert(join(f.take(21), sep) == join(f.take(20), sep) + sep + "pcie.link.width.max"@);
    assert(f.take(22).drop_last() =~= f.take(21) && f.take(22).last() == f[21]);
    assert(join(f.take(22), sep) == join(f.take(21), sep) + sep + "clocks_throttle_reasons.active"@);
    assert(f.take(22) =~= f);
    assert(QUERY@ =~= "index"@ + sep + "uuid"@ + sep + "name"@ + sep + "utilization.gpu"@ + sep + "utilization.memory"@ + sep + "temperature.gpu"@ + sep + "power.draw"@ + sep + "power.limit"@ + sep + "memory.used"@ + sep + "memory.total"@ + sep + "fan.speed"@ + sep + "pstate"@ + sep + "clocks.sm"@ + sep + "clocks.mem"@ + sep + "clocks.max.sm"@ + sep + "clocks.max.mem"@ + sep + "temperature.memory"@ + sep + "pcie.link.gen.current"@ + sep + "pcie.link.gen.max"@ + sep + "pcie.link.width.current"@ + sep + "pcie.link.width.max"@ + sep + "clocks_throttle_reasons.active"@);
}

/// The first position at or after `k` at which `s` holds `x`, or -1.
pub open spec fn position_from(s: Seq<Seq<char>>, x: Seq<char>, k: int) -> int
    decreases s.len() - k,
{
    if k < 0 || k >= s.len() {
        -1
    } else if s[k] == x {
        k
    } else {
        position_from(s, x, k + 1)
    }
}

/// The column in which nvidia-smi writes `field`: where `QUERY` names it.
pub open spec fn query_column(field: Seq<char>) -> int {
    position_from(query_fields(), field, 0)
}

/// Where `QUERY` names each field.
proof fn lemma_query_columns()
    ensures
        query_column("index"@) == 0,
        query_column("uuid"@) == 1,
        query_column("name"@) == 2,
        query_column("utilization.gpu"@) == 3,
        query_column("utilization.memory"@) == 4,
        query_column("temperature.gpu"@) == 5,
        query_column("power.draw"@) == 6,
        query_column("power.limit"@) == 7,
        query_column("memory.used"@) == 8,
        query_column("memory.total"@) == 9,
        query_column("fan.speed"@) == 10,
        query_column("pstate"@) == 11,
        query_column("clocks.sm"@) == 12,
        query_column("clocks.mem"@) == 13,
        query_column("clocks.max.sm"@) == 14,
        query_column("clocks.max.mem"@) == 15,
        query_column("temperature.memory"@) == 16,
        query_column("pcie.link.gen.current"@) == 17,
        query_column("pcie.link.gen.max"@) == 18,
        query_column("pcie.link.width.current"@) == 19,
        query_column("pcie.link.width.max"@) == 20,
        query_column("clocks_throttle_reasons.active"@) == 21,
{
    let f = query_fields();
    assert(query_column("index"@) == 0) by {
        reveal_strlit("index");
        assert(f[0] == "index"@);
        assert(position_from(f, "index"@, 0) == 0);
    }
    assert(query_column("uuid"@) == 1) by {
        reveal_strlit("uuid");
        reveal_strlit("index");
        assert(f[1] == "uuid"@);
        assert(f[0] == "index"@ && "index"@.len() != "uuid"@.len());
        assert(position_from(f, "uuid"@, 1) == 1);
        assert(position_from(f, "uuid"@, 0) == 1);
    }
    assert(query_column("name"@) == 2) by {
        reveal_strlit("name");
        reveal_strlit("index");
        reveal_strlit("uuid");
        assert(f[2] == "name"@);
        assert(f[0] == "index"@ && "index"@.len() != "name"@.len());
        assert(f[1] == "uuid"@ && "uuid"@[0] != "name"@[0]);
        assert(position_from(f, "name"@, 2) == 2);
        assert(position_from(f, "name"@, 1) == 2);
        assert(position_from(f, "name"@, 0) == 2);
    }
    assert(query_column("utilization.gpu"@) == 3) by {
        reveal_strlit("utilization.gpu");
        reveal_strlit("index");
        reveal_strlit("uuid");
        reveal_strlit("name");
        assert(f[3] == "utilization.gpu"@);
        assert(f[0] == "index"@ && "index"@.len() != "utilization.gpu"@.len());
        assert(f[1] == "uuid"@ && "uuid"@.len() != "utilization.gpu"@.len());
        assert(f[2] == "name"@ && "name"@.len() != "utilization.gpu"@.len());
        assert(position_from(f, "utilization.gpu"@, 3) == 3);
        assert(position_from(f, "utilization.gpu"@, 2) == 3);
        assert(position_from(f, "utilization.gpu"@, 1) == 3);
        assert(position_from(f, "utilization.gpu"@, 0) == 3);
    }
    assert(query_column("utilization.memory"@) == 4) by {
        reveal_strlit("utilization.memory");
        reveal_strlit("index");
        reveal_strlit("uuid");
        reveal_strlit("name");
        reveal_strlit("utilization.gpu");
        assert(f[4] == "utilization.memory"@);
        assert(f[0] == "index"@ && "index"@.len() != "utilization.memory"@.len());
        assert(f[1] == "uuid"@ && "uuid"@.len() != "utilization.memory"@.len());
        assert(f[2] == "name"@ && "name"@.len() != "utilization.memory"@.len());
        assert(f[3] == "utilization.gpu"@ && "utilization.gpu"@.len() != "utilization.memory"@.len());
        assert(position_from(f, "utilization.memory"@, 4) == 4);
        assert(position_from(f, "utilization.memory"@, 3) == 4);
        assert(position_from(f, "utilization.memory"@, 2) == 4);
        assert(position_from(f, "utilization.memory"@, 1) == 4);
        assert(position_from(f, "utilization.memory"@, 0) == 4);
    }
    assert(query_column("temperature.gpu"@) == 5) by {
        reveal_strlit("temperature.gpu");
        reveal_strlit("index");
        reveal_strlit("uuid");
        reveal_strlit("name");
        reveal_strlit("utilization.gpu");
        reveal_strlit("utilization.memory");
        assert(f[5] == "temperature.gpu"@);
        assert(f[0] == "index"@ && "index"@.len() != "temperature.gpu"@.len());
        assert(f[1] == "uuid"@ && "uuid"@.len() != "temperature.gpu"@.len());
        assert(f[2] == "name"@ && "name"@.len() != "temperature.gpu"@.len());
        assert(f[3] == "utilization.gpu"@ && "utilization.gpu"@[0] != "temperature.gpu"@[0]);
        assert(f[4] == "utilization.memory"@ && "utilization.memory"@.len() != "temperature.gpu"@.len());
        assert(position_from(f, "temperature.gpu"@, 5) == 5);
        assert(position_from(f, "temperature.gpu"@, 4) == 5);
        assert(position_from(f, "temperature.gpu"@, 3) == 5);
        assert(position_from(f, "temperature.gpu"@, 2) == 5);
        assert(position_from(f, "temperature.gpu"@, 1) == 5);
        assert(position_from(f, "temperature.gpu"@, 0) == 5);
    }
    assert(query_column("power.draw"@) == 6) by {
        reveal_strlit("power.draw");
        reveal_strlit("index");
        reveal_strlit("uuid");
        reveal_strlit("name");
        reveal_strlit("utilization.gpu");
        reveal_strlit("utilization.memory");
        reveal_strlit("temperature.gpu");
        assert(f[6] == "power.draw"@);
        assert(f[0] == "index"@ && "index"@.len() != "power.draw"@.len());
        assert(f[1] == "uuid"@ && "uuid"@.len() != "power.draw"@.len());
        assert(f[2] == "name"@ && "name"@.len() != "power.draw"@.len());
        assert(f[3] == "utilization.gpu"@ && "utilization.gpu"@.len() != "power.draw"@.len());
        assert(f[4] == "utilization.memory"@ && "utilization.memory"@.len() != "power.draw"@.len());
        assert(f[5] == "temperature.gpu"@ && "temperature.gpu"@.len() != "power.draw"@.len());
        assert(position_from(f, "power.draw"@, 6) == 6);
        assert(position_from(f, "power.draw"@, 5) == 6);
        assert(position_from(f, "power.draw"@, 4) == 6);
        assert(position_from(f, "power.draw"@, 3) == 6);
        assert(position_from(f, "power.draw"@, 2) == 6);
        assert(position_from(f, "power.draw"@, 1) == 6);
        assert(position_from(f, "power.draw"@, 0) == 6);
    }
    assert(query_column("power.limit"@) == 7) by {
        reveal_strlit("power.limit");
        reveal_strlit("index");
        reveal_strlit("uuid");
        reveal_strlit("name");
        reveal_strlit("utilization.gpu");
        reveal_strlit("utilization.memory");
        reveal_strlit("temperature.gpu");
        reveal_strlit("power.draw");
        assert(f[7] == "power.limit"@);
        assert(f[0] == "index"@ && "index"@.len() != "power.limit"@.len());
        assert(f[1] == "uuid"@ && "uuid"@.len() != "power.limit"@.len());
        assert(f[2] == "name"@ && "name"@.len() != "power.limit"@.len());
        assert(f[3] == "utilization.gpu"@ && "utilization.gpu"@.len() != "power.limit"@.len());
        assert(f[4] == "utilization.memory"@ && "utilization.memory"@.len() != "power.limit"@.len());
        assert(f[5] == "temperature.gpu"@ && "temperature.gpu"@.len() != "power.limit"@.len());
        assert(f[6] == "power.draw"@ && "power.draw"@.len() != "power.limit"@.len());
        assert(position_from(f, "power.limit"@, 7) == 7);
        assert(position_from(f, "power.limit"@, 6) == 7);
        assert(position_from(f, "power.limit"@, 5) == 7);
        assert(position_from(f, "power.limit"@, 4) == 7);
        assert(position_from(f, "power.limit"@, 3) == 7);
        assert(position_from(f, "power.limit"@, 2) == 7);
        assert(position_from(f, "power.limit"@, 1) == 7);
        assert(position_from(f, "power.limit"@, 0) == 7);
    }
    assert(query_column("memory.used"@) == 8) by {
        reveal_strlit("memory.used");
        reveal_strlit("index");
        reveal_strlit("uuid");
        reveal_strlit("name");
        reveal_strlit("utilization.gpu");
        reveal_strlit("utilization.memory");
        reveal_strlit("temperature.gpu");
        reveal_strlit("power.draw");
        reveal_strlit("power.limit");
        assert(f[8] == "memory.used"@);
        assert(f[0] == "index"@ && "index"@.len() != "memory.used"@.len());
        assert(f[1] == "uuid"@ && "uuid"@.len() != "memory.used"@.len());
        assert(f[2] == "name"@ && "name"@.len() != "memory.used"@.len());
        assert(f[3] == "utilization.gpu"@ && "utilization.gpu"@.len() != "memory.used"@.len());
        assert(f[4] == "utilization.memory"@ && "utilization.memory"@.len() != "memory.used"@.len());
        assert(f[5] == "temperature.gpu"@ && "temperature.gpu"@.len() != "memory.used"@.len());
        assert(f[6] == "power.draw"@ && "power.draw"@.len() != "memory.used"@.len());
        assert(f[7] == "power.limit"@ && "power.limit"@[0] != "memory.used"@[0]);
        assert(position_from(f, "memory.used"@, 8) == 8);
        assert(position_from(f, "memory.used"@, 7) == 8);
        assert(position_from(f, "memory.used"@, 6) == 8);
        assert(position_from(f, "memory.used"@, 5) == 8);
        assert(position_from(f, "memory.used"@, 4) == 8);
        assert(position_from(f, "memory.used"@, 3) == 8);
        assert(position_from(f, "memory.used"@, 2) == 8);
        assert(position_from(f, "memory.used"@, 1) == 8);
        assert(position_from(f, "memory.used"@, 0) == 8);
    }
    assert(query_column("memory.total"@) == 9) by {
        reveal_strlit("memory.total");
        reveal_strlit("index");
        reveal_strlit("uuid");
        reveal_strlit("name");
        reveal_strlit("utilization.gpu");
        reveal_strlit("utilization.memory");
        reveal_strlit("temperature.gpu");
        reveal_strlit("power.draw");
        reveal_strlit("power.limit");
        reveal_strlit("memory.used");
        assert(f[9] == "memory.total"@);
        assert(f[0] == "index"@ && "index"@.len() != "memory.total"@.len());
        assert(f[1] == "uuid"@ && "uuid"@.len() != "memory.total"@.len());
        assert(f[2] == "name"@ && "name"@.len() != "memory.total"@.len());
        assert(f[3] == "utilization.gpu"@ && "utilization.gpu"@.len() != "memory.total"@.len());
        assert(f[4] == "utilization.memory"@ && "utilization.memory"@.len() != "memory.total"@.len());
        assert(f[5] == "temperature.gpu"@ && "temperature.gpu"@.len() != "memory.total"@.len());
        assert(f[6] == "power.draw"@ && "power.draw"@.len() != "memory.total"@.len());
        assert(f[7] == "power.limit"@ && "power.limit"@.len() != "memory.total"@.len());
        assert(f[8] == "memory.used"@ && "memory.used"@.len() != "memory.total"@.len());
        assert(position_from(f, "memory.total"@, 9) == 9);
        assert(position_from(f, "memory.total"@, 8) == 9);
        assert(position_from(f, "memory.total"@, 7) == 9);
        assert(position_from(f, "memory.total"@, 6) == 9);
        assert(position_from(f, "memory.total"@, 5) == 9);
        assert(position_from(f, "memory.total"@, 4) == 9);
        assert(position_from(f, "memory.total"@, 3) == 9);
        assert(position_from(f, "memory.total"@, 2) == 9);
        assert(position_from(f, "memory.total"@, 1) == 9);
        assert(position_from(f, "memory.total"@, 0) == 9);
    }
    assert(query_column("fan.speed"@) == 10) by {
        reveal_strlit("fan.speed");
        reveal_strlit("index");
        reveal_strlit("uuid");
        reveal_strlit("name");
        reveal_strlit("utilization.gpu");
        reveal_strlit("utilization.memory");
        reveal_strlit("temperature.gpu");
        reveal_strlit("power.draw");
        reveal_strlit("power.limit");
        reveal_strlit("memory.used");
        reveal_strlit("memory.total");
        assert(f[10] == "fan.speed"@);
        assert(f[0] == "index"@ && "index"@.len() != "fan.speed"@.len());
        assert(f[1] == "uuid"@ && "uuid"@.len() != "fan.speed"@.len());
        assert(f[2] == "name"@ && "name"@.len() != "fan.speed"@.len());
        assert(f[3] == "utilization.gpu"@ && "utilization.gpu"@.len() != "fan.speed"@.len());
        assert(f[4] == "utilization.memory"@ && "utilization.memory"@.len() != "fan.speed"@.len());
        assert(f[5] == "temperature.gpu"@ && "temperature.gpu"@.len() != "fan.speed"@.len());
        assert(f[6] == "power.draw"@ && "power.draw"@.len() != "fan.speed"@.len());
        assert(f[7] == "power.limit"@ && "power.limit"@.len() != "fan.speed"@.len());
        assert(f[8] == "memory.used"@ && "memory.used"@.len() != "fan.speed"@.len());
        assert(f[9] == "memory.total"@ && "memory.total"@.len() != "fan.speed"@.len());
        assert(position_from(f, "fan.speed"@, 10) == 10);
        assert(position_from(f, "fan.speed"@, 9) == 10);
        assert(position_from(f, "fan.speed"@, 8) == 10);
        assert(position_from(f, "fan.speed"@, 7) == 10);
        assert(position_from(f, "fan.speed"@, 6) == 10);
        assert(position_from(f, "fan.speed"@, 5) == 10);
        assert(position_from(f, "fan.speed"@, 4) == 10);
        assert(position_from(f, "fan.speed"@, 3) == 10);
        assert(position_from(f, "fan.speed"@, 2) == 10);
        assert(position_from(f, "fan.speed"@, 1) == 10);
        assert(position_from(f, "fan.speed"@, 0) == 10);
    }
    assert(query_column("pstate"@) == 11) by {
        reveal_strlit("pstate");
        reveal_strlit("index");
        reveal_strlit("uuid");
        reveal_strlit("name");
        reveal_strlit("utilization.gpu");
        reveal_strlit("utilization.memory");
        reveal_strlit("temperature.gpu");
        reveal_strlit("power.draw");
        reveal_strlit("power.limit");
        reveal_strlit("memory.used");
        reveal_strlit("memory.total");
        reveal_strlit("fan.speed");
        assert(f[11] == "pstate"@);
        assert(f[0] == "index"@ && "index"@.len() != "pstate"@.len());
        assert(f[1] == "uuid"@ && "uuid"@.len() != "pstate"@.len());
        assert(f[2] == "name"@ && "name"@.len() != "pstate"@.len());
        assert(f[3] == "utilization.gpu"@ && "utilization.gpu"@.len() != "pstate"@.len());
        assert(f[4] == "utilization.memory"@ && "utilization.memory"@.len() != "pstate"@.len());
        assert(f[5] == "temperature.gpu"@ && "temperature.gpu"@.len() != "pstate"@.len());
        assert(f[6] == "power.draw"@ && "power.draw"@.len() != "pstate"@.len());
        assert(f[7] == "power.limit"@ && "power.limit"@.len() != "pstate"@.len());
        assert(f[8] == "memory.used"@ && "memory.used"@.len() != "pstate"@.len());
        assert(f[9] == "memory.total"@ && "memory.total"@.len() != "pstate"@.len());
        assert(f[10] == "fan.speed"@ && "fan.speed"@.len() != "pstate"@.len());
        assert(position_from(f, "pstate"@, 11) == 11);
        assert(position_from(f, "pstate"@, 10) == 11);
        assert(position_from(f, "pstate"@, 9) == 11);
        assert(position_from(f, "pstate"@, 8) == 11);
        assert(position_from(f, "pstate"@, 7) == 11);
        assert(position_from(f, "pstate"@, 6) == 11);
        assert(position_from(f, "pstate"@, 5) == 11);
        assert(position_from(f, "pstate"@, 4) == 11);
        assert(position_from(f, "pstate"@, 3) == 11);
        assert(position_from(f, "pstate"@, 2) == 11);
        assert(position_from(f, "pstate"@, 1) == 11);
        assert(position_from(f, "pstate"@, 0) == 11);
    }
    assert(query_column("clocks.sm"@) == 12) by {
        reveal_strlit("clocks.sm");
        reveal_strlit("index");
        reveal_strlit("uuid");
        reveal_strlit("name");
        reveal_strlit("utilization.gpu");
        reveal_strlit("utilization.memory");
        reveal_strlit("temperature.gpu");
        reveal_strlit("power.draw");
        reveal_strlit("power.limit");
        reveal_strlit("memory.used");
        reveal_strlit("memory.total");
        reveal_strlit("fan.speed");
        reveal_strlit("pstate");
        assert(f[12] == "clocks.sm"@);
        assert(f[0] == "index"@ && "index"@.len() != "clocks.sm"@.len());
        assert(f[1] == "uuid"@ && "uuid"@.len() != "clocks.sm"@.len());
        assert(f[2] == "name"@ && "name"@.len() != "clocks.sm"@.len());
        assert(f[3] == "utilization.gpu"@ && "utilization.gpu"@.len() != "clocks.sm"@.len());
        assert(f[4] == "utilization.memory"@ && "utilization.memory"@.len() != "clocks.sm"@.len());
        assert(f[5] == "temperature.gpu"@ && "temperature.gpu"@.len() != "clocks.sm"@.len());
        assert(f[6] == "power.draw"@ && "power.draw"@.len() != "clocks.sm"@.len());
        assert(f[7] == "power.limit"@ && "power.limit"@.len() != "clocks.sm"@.len());
        assert(f[8] == "memory.used"@ && "memory.used"@.len() != "clocks.sm"@.len());
        assert(f[9] == "memory.total"@ && "memory.total"@.len() != "clocks.sm"@.len());
        assert(f[10] == "fan.speed"@ && "fan.speed"@[0] != "clocks.sm"@[0]);
        assert(f[11] == "pstate"@ && "pstate"@.len() != "clocks.sm"@.len());
        assert(position_from(f, "clocks.sm"@, 12) == 12);
        assert(position_from(f, "clocks.sm"@, 11) == 12);
        assert(position_from(f, "clocks.sm"@, 10) == 12);
        assert(position_from(f, "clocks.sm"@, 9) == 12);
        assert(position_from(f, "clocks.sm"@, 8) == 12);
        assert(position_from(f, "clocks.sm"@, 7) == 12);
        assert(position_from(f, "clocks.sm"@, 6) == 12);
        assert(position_from(f, "clocks.sm"@, 5) == 12);
        assert(position_from(f, "clocks.sm"@, 4) == 12);
        assert(position_from(f, "clocks.sm"@, 3) == 12);
        assert(position_from(f, "clocks.sm"@, 2) == 12);
        assert(position_from(f, "clocks.sm"@, 1) == 12);
        assert(position_from(f, "clocks.sm"@, 0) == 12);
    }
    assert(query_column("clocks.mem"@) == 13) by {
        reveal_strlit("clocks.mem");
        reveal_strlit("index");
        reveal_strlit("uuid");
        reveal_strlit("name");
        reveal_strlit("utilization.gpu");
        reveal_strlit("utilization.memory");
        reveal_strlit("temperature.gpu");
        reveal_strlit("power.draw");
        reveal_strlit("power.limit");
        reveal_strlit("memory.used");
        reveal_strlit("memory.total");
        reveal_strlit("fan.speed");
        reveal_strlit("pstate");
        reveal_strlit("clocks.sm");
        assert(f[13] == "clocks.mem"@);
        assert(f[0] == "index"@ && "index"@.len() != "clocks.mem"@.len());
        assert(f[1] == "uuid"@ && "uuid"@.len() != "clocks.mem"@.len());
        assert(f[2] == "name"@ && "name"@.len() != "clocks.mem"@.len());
        assert(f[3] == "utilization.gpu"@ && "utilization.gpu"@.len() != "clocks.mem"@.len());
        assert(f[4] == "utilization.memory"@ && "utilization.memory"@.len() != "clocks.mem"@.len());
        assert(f[5] == "temperature.gpu"@ && "temperature.gpu"@.len() != "clocks.mem"@.len());
        assert(f[6] == "power.draw"@ && "power.draw"@[0] != "clocks.mem"@[0]);
        assert(f[7] == "power.limit"@ && "power.limit"@.len() != "clocks.mem"@.len());
        assert(f[8] == "memory.used"@ && "memory.used"@.len() != "clocks.mem"@.len());
        assert(f[9] == "memory.total"@ && "memory.total"@.len() != "clocks.mem"@.len());
        assert(f[10] == "fan.speed"@ && "fan.speed"@.len() != "clocks.mem"@.len());
        assert(f[11] == "pstate"@ && "pstate"@.len() != "clocks.mem"@.len());
        assert(f[12] == "clocks.sm"@ && "clocks.sm"@.len() != "clocks.mem"@.len());
        assert(position_from(f, "clocks.mem"@, 13) == 13);
        assert(position_from(f, "clocks.mem"@, 12) == 13);
        assert(position_from(f, "clocks.mem"@, 11) == 13);
        assert(position_from(f, "clocks.mem"@, 10) == 13);
        assert(position_from(f, "clocks.mem"@, 9) == 13);
        assert(position_from(f, "clocks.mem"@, 8) == 13);
        assert(position_from(f, "clocks.mem"@, 7) == 13);
        assert(position_from(f, "clocks.mem"@, 6) == 13);
        assert(position_from(f, "clocks.mem"@, 5) == 13);
        assert(position_from(f, "clocks.mem"@, 4) == 13);
        assert(position_from(f, "clocks.mem"@, 3) == 13);
        assert(position_from(f, "clocks.mem"@, 2) == 13);
        assert(position_from(f, "clocks.mem"@, 1) == 13);
        assert(position_from(f, "clocks.mem"@, 0) == 13);
    }
    assert(query_column("clocks.max.sm"@) == 14) by {
        reveal_strlit("clocks.max.sm");
        reveal_strlit("index");
        reveal_strlit("uuid");
        reveal_strlit("name");
        reveal_strlit("utilization.gpu");
        reveal_strlit("utilization.memory");
        reveal_strlit("temperature.gpu");
        reveal_strlit("power.draw");
        reveal_strlit("power.limit");
        reveal_strlit("memory.used");
        reveal_strlit("memory.total");
        reveal_strlit("fan.speed");
        reveal_strlit("pstate");
        reveal_strlit("clocks.sm");
        reveal_strlit("clocks.mem");
        assert(f[14] == "clocks.max.sm"@);
        assert(f[0] == "index"@ && "index"@.len() != "clocks.max.sm"@.len());
        assert(f[1] == "uuid"@ && "uuid"@.len() != "clocks.max.sm"@.len());
        assert(f[2] == "name"@ && "name"@.len() != "clocks.max.sm"@.len());
        assert(f[3] == "utilization.gpu"@ && "utilization.gpu"@.len() != "clocks.max.sm"@.len());
        assert(f[4] == "utilization.memory"@ && "utilization.memory"@.len() != "clocks.max.sm"@.len());
        assert(f[5] == "temperature.gpu"@ && "temperature.gpu"@.len() != "clocks.max.sm"@.len());
        assert(f[6] == "power.draw"@ && "power.draw"@.len() != "clocks.max.sm"@.len());
        assert(f[7] == "power.limit"@ && "power.limit"@.len() != "clocks.max.sm"@.len());
        assert(f[8] == "memory.used"@ && "memory.used"@.len() != "clocks.max.sm"@.len());
        assert(f[9] == "memory.total"@ && "memory.total"@.len() != "clocks.max.sm"@.len());
        assert(f[10] == "fan.speed"@ && "fan.speed"@.len() != "clocks.max.sm"@.len());
        assert(f[11] == "pstate"@ && "pstate"@.len() != "clocks.max.sm"@.len());
        assert(f[12] == "clocks.sm"@ && "clocks.sm"@.len() != "clocks.max.sm"@.len());
        assert(f[13] == "clocks.mem"@ && "clocks.mem"@.len() != "clocks.max.sm"@.len());
        assert(position_from(f, "clocks.max.sm"@, 14) == 14);
        assert(position_from(f, "clocks.max.sm"@, 13) == 14);
        assert(position_from(f, "clocks.max.sm"@, 12) == 14);
        assert(position_from(f, "clocks.max.sm"@, 11) == 14);
        assert(position_from(f, "clocks.max.sm"@, 10) == 14);
        assert(position_from(f, "clocks.max.sm"@, 9) == 14);
        assert(position_from(f, "clocks.max.sm"@, 8) == 14);
        assert(position_from(f, "clocks.max.sm"@, 7) == 14);
        assert(position_from(f, "clocks.max.sm"@, 6) == 14);
        assert(position_from(f, "clocks.max.sm"@, 5) == 14);
        assert(position_from(f, "clocks.max.sm"@, 4) == 14);
        assert(position_from(f, "clocks.max.sm"@, 3) == 14);
        assert(position_from(f, "clocks.max.sm"@, 2) == 14);
        assert(position_from(f, "clocks.max.sm"@, 1) == 14);
        assert(position_from(f, "clocks.max.sm"@, 0) == 14);
    }
    assert(query_column("clocks.max.mem"@) == 15) by {
        reveal_strlit("clocks.max.mem");
        reveal_strlit("index");
        reveal_strlit("uuid");
        reveal_strlit("name");
        reveal_strlit("utilization.gpu");
        reveal_strlit("utilization.memory");
        reveal_strlit("temperature.gpu");
        reveal_strlit("power.draw");
        reveal_strlit("power.limit");
        reveal_strlit("memory.used");
        reveal_strlit("memory.total");
        reveal_strlit("fan.speed");
        reveal_strlit("pstate");
        reveal_strlit("clocks.sm");
        reveal_strlit("clocks.mem");
        reveal_strlit("clocks.max.sm");
        assert(f[15] == "clocks.max.mem"@);
        assert(f[0] == "index"@ && "index"@.len() != "clocks.max.mem"@.len());
        assert(f[1] == "uuid"@ && "uuid"@.len() != "clocks.max.mem"@.len());
        assert(f[2] == "name"@ && "name"@.len() != "clocks.max.mem"@.len());
        assert(f[3] == "utilization.gpu"@ && "utilization.gpu"@.len() != "clocks.max.mem"@.len());
        assert(f[4] == "utilization.memory"@ && "utilization.memory"@.len() != "clocks.max.mem"@.len());
        assert(f[5] == "temperature.gpu"@ && "temperature.gpu"@.len() != "clocks.max.mem"@.len());
        assert(f[6] == "power.draw"@ && "power.draw"@.len() != "clocks.max.mem"@.len());
        assert(f[7] == "power.limit"@ && "power.limit"@.len() != "clocks.max.mem"@.len());
        assert(f[8] == "memory.used"@ && "memory.used"@.len() != "clocks.max.mem"@.len());
        assert(f[9] == "memory.total"@ && "memory.total"@.len() != "clocks.max.mem"@.len());
        assert(f[10] == "fan.speed"@ && "fan.speed"@.len() != "clocks.max.mem"@.len());
        assert(f[11] == "pstate"@ && "pstate"@.len() != "clocks.max.mem"@.len());
        assert(f[12] == "clocks.sm"@ && "clocks.sm"@.len() != "clocks.max.mem"@.len());
        assert(f[13] == "clocks.mem"@ && "clocks.mem"@.len() != "clocks.max.mem"@.len());
        assert(f[14] == "clocks.max.sm"@ && "clocks.max.sm"@.len() != "clocks.max.mem"@.len());
        assert(position_from(f, "clocks.max.mem"@, 15) == 15);
        assert(position_from(f, "clocks.max.mem"@, 14) == 15);
        assert(position_from(f, "clocks.max.mem"@, 13) == 15);
        assert(position_from(f, "clocks.max.mem"@, 12) == 15);
        assert(position_from(f, "clocks.max.mem"@, 11) == 15);
        assert(position_from(f, "clocks.max.mem"@, 10) == 15);
        assert(position_from(f, "clocks.max.mem"@, 9) == 15);
        assert(position_from(f, "clocks.max.mem"@, 8) == 15);
        assert(position_from(f, "clocks.max.mem"@, 7) == 15);
        assert(position_from(f, "clocks.max.mem"@, 6) == 15);
        assert(position_from(f, "clocks.max.mem"@, 5) == 15);
        assert(position_from(f, "clocks.max.mem"@, 4) == 15);
        assert(position_from(f, "clocks.max.mem"@, 3) == 15);
        assert(position_from(f, "clocks.max.mem"@, 2) == 15);
        assert(position_from(f, "clocks.max.mem"@, 1) == 15);
        assert(position_from(f, "clocks.max.mem"@, 0) == 15);
    }
    assert(query_column("temperature.memory"@) == 16) by {
        reveal_strlit("temperature.memory");
        reveal_strlit("index");
        reveal_strlit("uuid");
        reveal_strlit("name");
        reveal_strlit("utilization.gpu");
        reveal_strlit("utilization.memory");
        reveal_strlit("temperature.gpu");
        reveal_strlit("power.draw");
        reveal_strlit("power.limit");
        reveal_strlit("memory.used");
        reveal_strlit("memory.total");
        reveal_strlit("fan.speed");
        reveal_strlit("pstate");
        reveal_strlit("clocks.sm");
        reveal_strlit("clocks.mem");
        reveal_strlit("clocks.max.sm");
        reveal_strlit("clocks.max.mem");
        assert(f[16] == "temperature.memory"@);
        assert(f[0] == "index"@ && "index"@.len() != "temperature.memory"@.len());
        assert(f[1] == "uuid"@ && "uuid"@.len() != "temperature.memory"@.len());
        assert(f[2] == "name"@ && "name"@.len() != "temperature.memory"@.len());
        assert(f[3] == "utilization.gpu"@ && "utilization.gpu"@.len() != "temperature.memory"@.len());
        assert(f[4] == "utilization.memory"@ && "utilization.memory"@[0] != "temperature.memory"@[0]);
        assert(f[5] == "temperature.gpu"@ && "temperature.gpu"@.len() != "temperature.memory"@.len());
        assert(f[6] == "power.draw"@ && "power.draw"@.len() != "temperature.memory"@.len());
        assert(f[7] == "power.limit"@ && "power.limit"@.len() != "temperature.memory"@.len());
        assert(f[8] == "memory.used"@ && "memory.used"@.len() != "temperature.memory"@.len());
        assert(f[9] == "memory.total"@ && "memory.total"@.len() != "temperature.memory"@.len());
        assert(f[10] == "fan.speed"@ && "fan.speed"@.len() != "temperature.memory"@.len());
        assert(f[11] == "pstate"@ && "pstate"@.len() != "temperature.memory"@.len());
        assert(f[12] == "clocks.sm"@ && "clocks.sm"@.len() != "temperature.memory"@.len());
        assert(f[13] == "clocks.mem"@ && "clocks.mem"@.len() != "temperature.memory"@.len());
        assert(f[14] == "clocks.max.sm"@ && "clocks.max.sm"@.len() != "temperature.memory"@.len());
        assert(f[15] == "clocks.max.mem"@ && "clocks.max.mem"@.len() != "temperature.memory"@.len());
        assert(position_from(f, "temperature.memory"@, 16) == 16);
        assert(position_from(f, "temperature.memory"@, 15) == 16);
        assert(position_from(f, "temperature.memory"@, 14) == 16);
        assert(position_from(f, "temperature.memory"@, 13) == 16);
        assert(position_from(f, "temperature.memory"@, 12) == 16);
        assert(position_from(f, "temperature.memory"@, 11) == 16);
        assert(position_from(f, "temperature.memory"@, 10) == 16);
        assert(position_from(f, "temperature.memory"@, 9) == 16);
        assert(position_from(f, "temperature.memory"@, 8) == 16);
        assert(position_from(f, "temperature.memory"@, 7) == 16);
        assert(position_from(f, "temperature.memory"@, 6) == 16);
        assert(position_from(f, "temperature.memory"@, 5) == 16);
        assert(position_from(f, "temperature.memory"@, 4) == 16);
        assert(position_from(f, "temperature.memory"@, 3) == 16);
        assert(position_from(f, "temperature.memory"@, 2) == 16);
        assert(position_from(f, "temperature.memory"@, 1) == 16);
        assert(position_from(f, "temperature.memory"@, 0) == 16);
    }
    assert(query_column("pcie.link.gen.current"@) == 17) by {
        reveal_strlit("pcie.link.gen.current");
        reveal_strlit("index");
        reveal_strlit("uuid");
        reveal_strlit("name");
        reveal_strlit("utilization.gpu");
        reveal_strlit("utilization.memory");
        reveal_strlit("temperature.gpu");
        reveal_strlit("power.draw");
        reveal_strlit("power.limit");
        reveal_strlit("memory.used");
        reveal_strlit("memory.total");
        reveal_strlit("fan.speed");
        reveal_strlit("pstate");
        reveal_strlit("clocks.sm");
        reveal_strlit("clocks.mem");
        reveal_strlit("clocks.max.sm");
        reveal_strlit("clocks.max.mem");
        reveal_strlit("temperature.memory");
        assert(f[17] == "pcie.link.gen.current"@);
        assert(f[0] == "index"@ && "index"@.len() != "pcie.link.gen.current"@.len());
        assert(f[1] == "uuid"@ && "uuid"@.len() != "pcie.link.gen.current"@.len());
        assert(f[2] == "name"@ && "name"@.len() != "pcie.link.gen.current"@.len());
        assert(f[3] == "utilization.gpu"@ && "utilization.gpu"@.len() != "pcie.link.gen.current"@.len());
        assert(f[4] == "utilization.memory"@ && "utilization.memory"@.len() != "pcie.link.gen.current"@.len());
        assert(f[5] == "temperature.gpu"@ && "temperature.gpu"@.len() != "pcie.link.gen.current"@.len());
        assert(f[6] == "power.draw"@ && "power.draw"@.len() != "pcie.link.gen.current"@.len());
        assert(f[7] == "power.limit"@ && "power.limit"@.len() != "pcie.link.gen.current"@.len());
        assert(f[8] == "memory.used"@ && "memory.used"@.len() != "pcie.link.gen.current"@.len());
        assert(f[9] == "memory.total"@ && "memory.total"@.len() != "pcie.link.gen.current"@.len());
        assert(f[10] == "fan.speed"@ && "fan.speed"@.len() != "pcie.link.gen.current"@.len());
        assert(f[11] == "pstate"@ && "pstate"@.len() != "pcie.link.gen.current"@.len());
        assert(f[12] == "clocks.sm"@ && "clocks.sm"@.len() != "pcie.link.gen.current"@.len());
        assert(f[13] == "clocks.mem"@ && "clocks.mem"@.len() != "pcie.link.gen.current"@.len());
        assert(f[14] == "clocks.max.sm"@ && "clocks.max.sm"@.len() != "pcie.link.gen.current"@.len());
        assert(f[15] == "clocks.max.mem"@ && "clocks.max.mem"@.len() != "pcie.link.gen.current"@.len());
        assert(f[16] == "temperature.memory"@ && "temperature.memory"@.len() != "pcie.link.gen.current"@.len());
        assert(position_from(f, "pcie.link.gen.current"@, 17) == 17);
        assert(position_from(f, "pcie.link.gen.current"@, 16) == 17);
        assert(position_from(f, "pcie.link.gen.current"@, 15) == 17);
        assert(position_from(f, "pcie.link.gen.current"@, 14) == 17);
        assert(position_from(f, "pcie.link.gen.current"@, 13) == 17);
        assert(position_from(f, "pcie.link.gen.current"@, 12) == 17);
        assert(position_from(f, "pcie.link.gen.current"@, 11) == 17);
        assert(position_from(f, "pcie.link.gen.current"@, 10) == 17);
        assert(position_from(f, "pcie.link.gen.current"@, 9) == 17);
        assert(position_from(f, "pcie.link.gen.current"@, 8) == 17);
        assert(position_from(f, "pcie.link.gen.current"@, 7) == 17);
        assert(position_from(f, "pcie.link.gen.current"@, 6) == 17);
        assert(position_from(f, "pcie.link.gen.current"@, 5) == 17);
        assert(position_from(f, "pcie.link.gen.current"@, 4) == 17);
        assert(position_from(f, "pcie.link.gen.current"@, 3) == 17);
        assert(position_from(f, "pcie.link.gen.current"@, 2) == 17);
        assert(position_from(f, "pcie.link.gen.current"@, 1) == 17);
        assert(position_from(f, "pcie.link.gen.current"@, 0) == 17);
    }
    assert(query_column("pcie.link.gen.max"@) == 18) by {
        reveal_strlit("pcie.link.gen.max");
        reveal_strlit("index");
        reveal_strlit("uuid");
        reveal_strlit("name");
        reveal_strlit("utilization.gpu");
        reveal_strlit("utilization.memory");
        reveal_strlit("temperature.gpu");
        reveal_strlit("power.draw");
        reveal_strlit("power.limit");
        reveal_strlit("memory.used");
        reveal_strlit("memory.total");
        reveal_strlit("fan.speed");
        reveal_strlit("pstate");
        reveal_strlit("clocks.sm");
        reveal_strlit("clocks.mem");
        reveal_strlit("clocks.max.sm");
        reveal_strlit("clocks.max.mem");
        reveal_strlit("temperature.memory");
        reveal_strlit("pcie.link.gen.current");
        assert(f[18] == "pcie.link.gen.max"@);
        assert(f[0] == "index"@ && "index"@.len() != "pcie.link.gen.max"@.len());
        assert(f[1] == "uuid"@ && "uuid"@.len() != "pcie.link.gen.max"@.len());
        assert(f[2] == "name"@ && "name"@.len() != "pcie.link.gen.max"@.len());
        assert(f[3] == "utilization.gpu"@ && "utilization.gpu"@.len() != "pcie.link.gen.max"@.len());
        assert(f[4] == "utilization.memory"@ && "utilization.memory"@.len() != "pcie.link.gen.max"@.len());
        assert(f[5] == "temperature.gpu"@ && "temperature.gpu"@.len() != "pcie.link.gen.max"@.len());
        assert(f[6] == "power.draw"@ && "power.draw"@.len() != "pcie.link.gen.max"@.len());
        assert(f[7] == "power.limit"@ && "power.limit"@.len() != "pcie.link.gen.max"@.len());
        assert(f[8] == "memory.used"@ && "memory.used"@.len() != "pcie.link.gen.max"@.len());
        assert(f[9] == "memory.total"@ && "memory.total"@.len() != "pcie.link.gen.max"@.len());
        assert(f[10] == "fan.speed"@ && "fan.speed"@.len() != "pcie.link.gen.max"@.len());
        assert(f[11] == "pstate"@ && "pstate"@.len() != "pcie.link.gen.max"@.len());
        assert(f[12] == "clocks.sm"@ && "clocks.sm"@.len() != "pcie.link.gen.max"@.len());
        assert(f[13] == "clocks.mem"@ && "clocks.mem"@.len() != "pcie.link.gen.max"@.len());
        assert(f[14] == "clocks.max.sm"@ && "clocks.max.sm"@.len() != "pcie.link.gen.max"@.len());
        assert(f[15] == "clocks.max.mem"@ && "clocks.max.mem"@.len() != "pcie.link.gen.max"@.len());
        assert(f[16] == "temperature.memory"@ && "temperature.memory"@.len() != "pcie.link.gen.max"@.len());
        assert(f[17] == "pcie.link.gen.current"@ && "pcie.link.gen.current"@.len() != "pcie.link.gen.max"@.len());
        assert(position_from(f, "pcie.link.gen.max"@, 18) == 18);
        assert(position_from(f, "pcie.link.gen.max"@, 17) == 18);
        assert(position_from(f, "pcie.link.gen.max"@, 16) == 18);
        assert(position_from(f, "pcie.link.gen.max"@, 15) == 18);
        assert(position_from(f, "pcie.link.gen.max"@, 14) == 18);
        assert(position_from(f, "pcie.link.gen.max"@, 13) == 18);
        assert(position_from(f, "pcie.link.gen.max"@, 12) == 18);
        assert(position_from(f, "pcie.link.gen.max"@, 11) == 18);
        assert(position_from(f, "pcie.link.gen.max"@, 10) == 18);
        assert(position_from(f, "pcie.link.gen.max"@, 9) == 18);
        assert(position_from(f, "pcie.link.gen.max"@, 8) == 18);
        assert(position_from(f, "pcie.link.gen.max"@, 7) == 18);
        assert(position_from(f, "pcie.link.gen.max"@, 6) == 18);
        assert(position_from(f, "pcie.link.gen.max"@, 5) == 18);
        assert(position_from(f, "pcie.link.gen.max"@, 4) == 18);
        assert(position_from(f, "pcie.link.gen.max"@, 3) == 18);
        assert(position_from(f, "pcie.link.gen.max"@, 2) == 18);
        assert(position_from(f, "pcie.link.gen.max"@, 1) == 18);
        assert(position_from(f, "pcie.link.gen.max"@, 0) == 18);
    }
    assert(query_column("pcie.link.width.current"@) == 19) by {
        reveal_strlit("pcie.link.width.current");
        reveal_strlit("index");
        reveal_strlit("uuid");
        reveal_strlit("name");
        reveal_strlit("utilization.gpu");
        reveal_strlit("utilization.memory");
        reveal_strlit("temperature.gpu");
        reveal_strlit("power.draw");
        reveal_strlit("power.limit");
        reveal_strlit("memory.used");
        reveal_strlit("memory.total");
        reveal_strlit("fan.speed");
        reveal_strlit("pstate");
        reveal_strlit("clocks.sm");
        reveal_strlit("clocks.mem");
        reveal_strlit("clocks.max.sm");
        reveal_strlit("clocks.max.mem");
        reveal_strlit("temperature.memory");
        reveal_strlit("pcie.link.gen.current");
        reveal_strlit("pcie.link.gen.max");
        assert(f[19] == "pcie.link.width.current"@);
        assert(f[0] == "index"@ && "index"@.len() != "pcie.link.width.current"@.len());
        assert(f[1] == "uuid"@ && "uuid"@.len() != "pcie.link.width.current"@.len());
        assert(f[2] == "name"@ && "name"@.len() != "pcie.link.width.current"@.len());
        assert(f[3] == "utilization.gpu"@ && "utilization.gpu"@.len() != "pcie.link.width.current"@.len());
        assert(f[4] == "utilization.memory"@ && "utilization.memory"@.len() != "pcie.link.width.current"@.len());
        assert(f[5] == "temperature.gpu"@ && "temperature.gpu"@.len() != "pcie.link.width.current"@.len());
        assert(f[6] == "power.draw"@ && "power.draw"@.len() != "pcie.link.width.current"@.len());
        assert(f[7] == "power.limit"@ && "power.limit"@.len() != "pcie.link.width.current"@.len());
        assert(f[8] == "memory.used"@ && "memory.used"@.len() != "pcie.link.width.current"@.len());
        assert(f[9] == "memory.total"@ && "memory.total"@.len() != "pcie.link.width.current"@.len());
        assert(f[10] == "fan.speed"@ && "fan.speed"@.len() != "pcie.link.width.current"@.len());
        assert(f[11] == "pstate"@ && "pstate"@.len() != "pcie.link.width.current"@.len());
        assert(f[12] == "clocks.sm"@ && "clocks.sm"@.len() != "pcie.link.width.current"@.len());
        assert(f[13] == "clocks.mem"@ && "clocks.mem"@.len() != "pcie.link.width.current"@.len());
        assert(f[14] == "clocks.max.sm"@ && "clocks.max.sm"@.len() != "pcie.link.width.current"@.len());
        assert(f[15] == "clocks.max.mem"@ && "clocks.max.mem"@.len() != "pcie.link.width.current"@.len());
        assert(f[16] == "temperature.memory"@ && "temperature.memory"@.len() != "pcie.link.width.current"@.len());
        assert(f[17] == "pcie.link.gen.current"@ && "pcie.link.gen.current"@.len() != "pcie.link.width.current"@.len());
        assert(f[18] == "pcie.link.gen.max"@ && "pcie.link.gen.max"@.len() != "pcie.link.width.current"@.len());
        assert(position_from(f, "pcie.link.width.current"@, 19) == 19);
        assert(position_from(f, "pcie.link.width.current"@, 18) == 19);
        assert(position_from(f, "pcie.link.width.current"@, 17) == 19);
        assert(position_from(f, "pcie.link.width.current"@, 16) == 19);
        assert(position_from(f, "pcie.link.width.current"@, 15) == 19);
        assert(position_from(f, "pcie.link.width.current"@, 14) == 19);
        assert(position_from(f, "pcie.link.width.current"@, 13) == 19);
        assert(position_from(f, "pcie.link.width.current"@, 12) == 19);
        assert(position_from(f, "pcie.link.width.current"@, 11) == 19);
        assert(position_from(f, "pcie.link.width.current"@, 10) == 19);
        assert(position_from(f, "pcie.link.width.current"@, 9) == 19);
        assert(position_from(f, "pcie.link.width.current"@, 8) == 19);
        assert(position_from(f, "pcie.link.width.current"@, 7) == 19);
        assert(position_from(f, "pcie.link.width.current"@, 6) == 19);
        assert(position_from(f, "pcie.link.width.current"@, 5) == 19);
        assert(position_from(f, "pcie.link.width.current"@, 4) == 19);
        assert(position_from(f, "pcie.link.width.current"@, 3) == 19);
        assert(position_from(f, "pcie.link.width.current"@, 2) == 19);
        assert(position_from(f, "pcie.link.width.current"@, 1) == 19);
        assert(position_from(f, "pcie.link.width.current"@, 0) == 19);
    }
    assert(query_column("pcie.link.width.max"@) == 20) by {
        reveal_strlit("pcie.link.width.max");
        reveal_strlit("index");
        reveal_strlit("uuid");
        reveal_strlit("name");
        reveal_strlit("utilization.gpu");
        reveal_strlit("utilization.memory");
        reveal_strlit("temperature.gpu");
        reveal_strlit("power.draw");
        reveal_strlit("power.limit");
        reveal_strlit("memory.used");
        reveal_strlit("memory.total");
        reveal_strlit("fan.speed");
        reveal_strlit("pstate");
        reveal_strlit("clocks.sm");
        reveal_strlit("clocks.mem");
        reveal_strlit("clocks.max.sm");
        reveal_strlit("clocks.max.mem");
        reveal_strlit("temperature.memory");
        reveal_strlit("pcie.link.gen.current");
        reveal_strlit("pcie.link.gen.max");
        reveal_strlit("pcie.link.width.current");
        assert(f[20] == "pcie.link.width.max"@);
        assert(f[0] == "index"@ && "index"@.len() != "pcie.link.width.max"@.len());
        assert(f[1] == "uuid"@ && "uuid"@.len() != "pcie.link.width.max"@.len());
        assert(f[2] == "name"@ && "name"@.len() != "pcie.link.width.max"@.len());
        assert(f[3] == "utilization.gpu"@ && "utilization.gpu"@.len() != "pcie.link.width.max"@.len());
        assert(f[4] == "utilization.memory"@ && "utilization.memory"@.len() != "pcie.link.width.max"@.len());
        assert(f[5] == "temperature.gpu"@ && "temperature.gpu"@.len() != "pcie.link.width.max"@.len());
        assert(f[6] == "power.draw"@ && "power.draw"@.len() != "pcie.link.width.max"@.len());
        assert(f[7] == "power.limit"@ && "power.limit"@.len() != "pcie.link.width.max"@.len());
        assert(f[8] == "memory.used"@ && "memory.used"@.len() != "pcie.link.width.max"@.len());
        assert(f[9] == "memory.total"@ && "memory.total"@.len() != "pcie.link.width.max"@.len());
        assert(f[10] == "fan.speed"@ && "fan.speed"@.len() != "pcie.link.width.max"@.len());
        assert(f[11] == "pstate"@ && "pstate"@.len() != "pcie.link.width.max"@.len());
        assert(f[12] == "clocks.sm"@ && "clocks.sm"@.len() != "pcie.link.width.max"@.len());
        assert(f[13] == "clocks.mem"@ && "clocks.mem"@.len() != "pcie.link.width.max"@.len());
        assert(f[14] == "clocks.max.sm"@ && "clocks.max.sm"@.len() != "pcie.link.width.max"@.len());
        assert(f[15] == "clocks.max.mem"@ && "clocks.max.mem"@.len() != "pcie.link.width.max"@.len());
        assert(f[16] == "temperature.memory"@ && "temperature.memory"@.len() != "pcie.link.width.max"@.len());
        assert(f[17] == "pcie.link.gen.current"@ && "pcie.link.gen.current"@.len() != "pcie.link.width.max"@.len());
        assert(f[18] == "pcie.link.gen.max"@ && "pcie.link.gen.max"@.len() != "pcie.link.width.max"@.len());
        assert(f[19] == "pcie.link.width.current"@ && "pcie.link.width.current"@.len() != "pcie.link.width.max"@.len());
        assert(position_from(f, "pcie.link.width.max"@, 20) == 20);
        assert(position_from(f, "pcie.link.width.max"@, 19) == 20);
        assert(position_from(f, "pcie.link.width.max"@, 18) == 20);
        assert(position_from(f, "pcie.link.width.max"@, 17) == 20);
        assert(position_from(f, "pcie.link.width.max"@, 16) == 20);
        assert(position_from(f, "pcie.link.width.max"@, 15) == 20);
        assert(position_from(f, "pcie.link.width.max"@, 14) == 20);
        assert(position_from(f, "pcie.link.width.max"@, 13) == 20);
        assert(position_from(f, "pcie.link.width.max"@, 12) == 20);
        assert(position_from(f, "pcie.link.width.max"@, 11) == 20);
        assert(position_from(f, "pcie.link.width.max"@, 10) == 20);
        assert(position_from(f, "pcie.link.width.max"@, 9) == 20);
        assert(position_from(f, "pcie.link.width.max"@, 8) == 20);
        assert(position_from(f, "pcie.link.width.max"@, 7) == 20);
        assert(position_from(f, "pcie.link.width.max"@, 6) == 20);
        assert(position_from(f, "pcie.link.width.max"@, 5) == 20);
        assert(position_from(f, "pcie.link.width.max"@, 4) == 20);
        assert(position_from(f, "pcie.link.width.max"@, 3) == 20);
        assert(position_from(f, "pcie.link.width.max"@, 2) == 20);
        assert(position_from(f, "pcie.link.width.max"@, 1) == 20);
        assert(position_from(f, "pcie.link.width.max"@, 0) == 20);
    }
    assert(query_column("clocks_throttle_reasons.active"@) == 21) by {
        reveal_strlit("clocks_throttle_reasons.active");
        reveal_strlit("index");
        reveal_strlit("uuid");
        reveal_strlit("name");
        reveal_strlit("utilization.gpu");
        reveal_strlit("utilization.memory");
        reveal_strlit("temperature.gpu");
        reveal_strlit("power.draw");
        reveal_strlit("power.limit");
        reveal_strlit("memory.used");
        reveal_strlit("memory.total");
        reveal_strlit("fan.speed");
        reveal_strlit("pstate");
        reveal_strlit("clocks.sm");
        reveal_strlit("clocks.mem");
        reveal_strlit("clocks.max.sm");
        reveal_strlit("clocks.max.mem");
        reveal_strlit("temperature.memory");
        reveal_strlit("pcie.link.gen.current");
        reveal_strlit("pcie.link.gen.max");
        reveal_strlit("pcie.link.width.current");
        reveal_strlit("pcie.link.width.max");
        assert(f[21] == "clocks_throttle_reasons.active"@);
        assert(f[0] == "index"@ && "index"@.len() != "clocks_throttle_reasons.active"@.len());
        assert(f[1] == "uuid"@ && "uuid"@.len() != "clocks_throttle_reasons.active"@.len());
        assert(f[2] == "name"@ && "name"@.len() != "clocks_throttle_reasons.active"@.len());
        assert(f[3] == "utilization.gpu"@ && "utilization.gpu"@.len() != "clocks_throttle_reasons.active"@.len());
        assert(f[4] == "utilization.memory"@ && "utilization.memory"@.len() != "clocks_throttle_reasons.active"@.len());
        assert(f[5] == "temperature.gpu"@ && "temperature.gpu"@.len() != "clocks_throttle_reasons.active"@.len());
        assert(f[6] == "power.draw"@ && "power.draw"@.len() != "clocks_throttle_reasons.active"@.len());
        assert(f[7] == "power.limit"@ && "power.limit"@.len() != "clocks_throttle_reasons.active"@.len());
        assert(f[8] == "memory.used"@ && "memory.used"@.len() != "clocks_throttle_reasons.active"@.len());
        assert(f[9] == "memory.total"@ && "memory.total"@.len() != "clocks_throttle_reasons.active"@.len());
        assert(f[10] == "fan.speed"@ && "fan.speed"@.len() != "clocks_throttle_reasons.active"@.len());
        assert(f[11] == "pstate"@ && "pstate"@.len() != "clocks_throttle_reasons.active"@.len());
        assert(f[12] == "clocks.sm"@ && "clocks.sm"@.len() != "clocks_throttle_reasons.active"@.len());
        assert(f[13] == "clocks.mem"@ && "clocks.mem"@.len() != "clocks_throttle_reasons.active"@.len());
        assert(f[14] == "clocks.max.sm"@ && "clocks.max.sm"@.len() != "clocks_throttle_reasons.active"@.len());
        assert(f[15] == "clocks.max.mem"@ && "clocks.max.mem"@.len() != "clocks_throttle_reasons.active"@.len());
        assert(f[16] == "temperature.memory"@ && "temperature.memory"@.len() != "clocks_throttle_reasons.active"@.len());
        assert(f[17] == "pcie.link.gen.current"@ && "pcie.link.gen.current"@.len() != "clocks_throttle_reasons.active"@.len());
        assert(f[18] == "pcie.link.gen.max"@ && "pcie.link.gen.max"@.len() != "clocks_throttle_reasons.active"@.len());
        assert(f[19] == "pcie.link.width.current"@ && "pcie.link.width.current"@.len() != "clocks_throttle_reasons.active"@.len());
        assert(f[20] == "pcie.link.width.max"@ && "pcie.link.width.max"@.len() != "clocks_throttle_reasons.active"@.len());
        assert(position_from(f, "clocks_throttle_reasons.active"@, 21) == 21);
        assert(position_from(f, "clocks_throttle_reasons.active"@, 20) == 21);
        assert(position_from(f, "clocks_throttle_reasons.active"@, 19) == 21);
        assert(position_from(f, "clocks_throttle_reasons.active"@, 18) == 21);
        assert(position_from(f, "clocks_throttle_reasons.active"@, 17) == 21);
        assert(position_from(f, "clocks_throttle_reasons.active"@, 16) == 21);
        assert(position_from(f, "clocks_throttle_reasons.active"@, 15) == 21);
        assert(position_from(f, "clocks_throttle_reasons.active"@, 14) == 21);
        assert(position_from(f, "clocks_throttle_reasons.active"@, 13) == 21);
        assert(position_from(f, "clocks_throttle_reasons.active"@, 12) == 21);
        assert(position_from(f, "clocks_throttle_reasons.active"@, 11) == 21);
        assert(position_from(f, "clocks_throttle_reasons.active"@, 10) == 21);
        assert(position_from(f, "clocks_throttle_reasons.active"@, 9) == 21);
        assert(position_from(f, "clocks_throttle_reasons.active"@, 8) == 21);
        assert(position_from(f, "clocks_throttle_reasons.active"@, 7) == 21);
        assert(position_from(f, "clocks_throttle_reasons.active"@, 6) == 21);
        assert(position_from(f, "clocks_throttle_reasons.active"@, 5) == 21);
        assert(position_from(f, "clocks_throttle_reasons.active"@, 4) == 21);
        assert(position_from(f, "clocks_throttle_reasons.active"@, 3) == 21);
        assert(position_from(f, "clocks_throttle_reasons.active"@, 2) == 21);
        assert(position_from(f, "clocks_throttle_reasons.active"@, 1) == 21);
        assert(position_from(f, "clocks_throttle_reasons.active"@, 0) == 21);
    }
}

/// Each field of a GPU sample built from an nvidia-smi line is read from the
/// column in which nvidia-smi writes the field of that name, as `QUERY`
/// orders them; the power draw and limit are read by the caller.
pub proof fn law_gpu_columns_follow_query(
    cols: Seq<Seq<char>>,
    power_w: Option<Real32>,
    power_limit_w: Option<Real32>,
    g: GpuSample,
)
    requires
        is_gpu_row(cols),
        gpu_matches_columns(g, cols, power_w, power_limit_w),
    ensures
        g.index == spec_parse_or_zero(cols[query_column("index"@)], u32::MAX as nat),
        g.uuid@ == trim(cols[query_column("uuid"@)]),
        g.name@ == trim(cols[query_column("name"@)]),
        g.utilization_gpu == spec_parse_or_zero(cols[query_column("utilization.gpu"@)], u32::MAX as nat),
        g.utilization_memory == spec_parse_or_zero(cols[query_column("utilization.memory"@)], u32::MAX as nat),
        g.temperature_c == spec_parse_or_zero(cols[query_column("temperature.gpu"@)], u32::MAX as nat),
        g.memory_used_mb == opt_u64(spec_parse_opt(cols[query_column("memory.used"@)], u64::MAX as nat)),
        g.memory_total_mb == opt_u64(spec_parse_opt(cols[query_column("memory.total"@)], u64::MAX as nat)),
        g.fan_speed_pct == opt_u32(spec_parse_opt(cols[query_column("fan.speed"@)], u32::MAX as nat)),
        g.pstate@ == trim(cols[query_column("pstate"@)]),
        g.sm_clock_mhz == opt_u32(spec_parse_opt(cols[query_column("clocks.sm"@)], u32::MAX as nat)),
        g.mem_clock_mhz == opt_u32(spec_parse_opt(cols[query_column("clocks.mem"@)], u32::MAX as nat)),
        g.sm_clock_max_mhz == opt_u32(spec_parse_opt(cols[query_column("clocks.max.sm"@)], u32::MAX as nat)),
        g.mem_clock_max_mhz == opt_u32(spec_parse_opt(cols[query_column("clocks.max.mem"@)], u32::MAX as nat)),
        g.mem_temp_c == opt_u32(spec_parse_opt(cols[query_column("temperature.memory"@)], u32::MAX as nat)),
        g.pcie_link_gen == opt_u32(spec_parse_opt(cols[query_column("pcie.link.gen.current"@)], u32::MAX as nat)),
        g.pcie_link_gen_max == opt_u32(spec_parse_opt(cols[query_column("pcie.link.gen.max"@)], u32::MAX as nat)),
        g.pcie_link_width == opt_u32(spec_parse_opt(cols[query_column("pcie.link.width.current"@)], u32::MAX as nat)),
        g.pcie_link_width_max == opt_u32(spec_parse_opt(cols[query_column("pcie.link.width.max"@)], u32::MAX as nat)),
        g.throttle_active == spec_parse_hex(cols[query_column("clocks_throttle_reasons.active"@)]) as u64,
        g.power_w == power_w,
        g.power_limit_w == power_limit_w,
{
    lemma_query_columns();
}

/// Build the sample of one GPU from the columns of its nvidia-smi line; the
/// power draw and power limit (columns 6 and 7) are read by the caller.
pub fn gpu_sample_from_columns(
    cols: &Vec<String>,
    power_w: Option<Real32>,
    power_limit_w: Option<Real32>,
) -> (g: GpuSample)
    requires
        cols.len() >= GPU_COLUMNS,
    ensures
        gpu_matches_columns(g, views(cols@), power_w, power_limit_w),
{
    let throttle = parse_hex_u64(cols[21].as_str());
    GpuSample {
        index: parse_u32(cols[0].as_str()),
        uuid: crate::text::trim_str(cols[1].as_str()),
        name: crate::text::trim_str(cols[2].as_str()),
        utilization_gpu: parse_u32(cols[3].as_str()),
        utilization_memory: parse_u32(cols[4].as_str()),
        temperature_c: parse_u32(cols[5].as_str()),
        power_w,
        power_limit_w,
        memory_used_mb: parse_opt_u64(cols[8].as_str()),
        memory_total_mb: parse_opt_u64(cols[9].as_str()),
        fan_speed_pct: parse_opt_u32(cols[10].as_str()),
        pstate: crate::text::trim_str(cols[11].as_str()),
        sm_clock_mhz: parse_opt_u32(cols[12].as_str()),
        mem_clock_mhz: parse_opt_u32(cols[13].as_str()),
        sm_clock_max_mhz: parse_opt_u32(cols[14].as_str()),
        mem_clock_max_mhz: parse_opt_u32(cols[15].as_str()),
        mem_temp_c: parse_opt_u32(cols[16].as_str()),
        pcie_link_gen: parse_opt_u32(cols[17].as_str()),
        pcie_link_gen_max: parse_opt_u32(cols[18].as_str()),
        pcie_link_width: parse_opt_u32(cols[19].as_str()),
        pcie_link_width_max: parse_opt_u32(cols[20].as_str()),
        throttle_active: throttle,
        throttle_hw_thermal: parse_bool_from_bitmask(throttle, 0x10),
        throttle_sw_thermal: parse_bool_from_bitmask(throttle, 0x40),
        throttle_hw_slowdown: parse_bool_from_bitmask(throttle, 0x8),
        throttle_power_brake: parse_bool_from_bitmask(throttle, 0x20),
    }
}

/// A CPU frequency in MHz from the text of a cpufreq file, which holds kHz:
/// the trimmed text parsed as a 32-bit number, divided by 1000; none when
/// it does not parse.
pub open spec fn spec_cpu_freq_mhz(text: Seq<char>) -> Option<u32> {
    match spec_parse_unsigned(trim(text), 10, u32::MAX as nat) {
        Some(khz) => Some((khz / 1000) as u32),
        None => None,
    }
}

/// The CPU frequency in MHz that a cpufreq file (`scaling_cur_freq`,
/// `scaling_max_freq`) holding kHz gives.
pub fn cpu_freq_mhz(text: &str) -> (r: Option<u32>)
    ensures
        r == spec_cpu_freq_mhz(text@),
{
    let t = trim_chars(&chars_of(text));
    match parse_unsigned(&t, 10, u32::MAX as u64) {
        Some(khz) => Some((khz / 1000) as u32),
        None => None,
    }
}

/// Whole mebibytes in `bytes`, rounded down.
pub fn mib_of_bytes(bytes: u64) -> (r: u64)
    ensures
        r == bytes / 1_048_576,
{
    bytes / 1024 / 1024
}

/// The column sums of a list of counter pairs.
pub open spec fn pair_sums(s: Seq<(u64, u64)>) -> (int, int)
    decreases s.len(),
{
    if s.len() == 0 {
        (0, 0)
    } else {
        let p = pair_sums(s.drop_last());
        (p.0 + s.last().0, p.1 + s.last().1)
    }
}

/// The column sums fit in a `u64` each.
pub open spec fn sums_fit(s: Seq<(u64, u64)>) -> bool {
    pair_sums(s).0 <= u64::MAX && pair_sums(s).1 <= u64::MAX
}

proof fn lemma_pair_sums_grow(s: Seq<(u64, u64)>, i: int)
    requires
        0 <= i <= s.len(),
    ensures
        0 <= pair_sums(s.take(i)).0 <= pair_sums(s).0,
        0 <= pair_sums(s.take(i)).1 <= pair_sums(s).1,
    decreases s.len(),
{
    if s.len() > 0 {
        if i == s.len() {
            assert(s.take(i) =~= s);
            lemma_pair_sums_grow(s.drop_last(), s.len() - 1);
            assert(s.drop_last().take(s.len() - 1) =~= s.drop_last());
        } else {
            lemma_pair_sums_grow(s.drop_last(), i);
            assert(s.drop_last().take(i) =~= s.take(i));
        }
    } else {
        assert(s.take(i) =~= s);
    }
}

/// The sums of the received and transmitted byte counters of all
/// interfaces; `None` when a sum does not fit in a `u64`.
pub fn network_totals(counters: &Vec<(u64, u64)>) -> (r: Option<(u64, u64)>)
    ensures
        r is Some <==> sums_fit(counters@),
        r matches Some(t) ==> t.0 == pair_sums(counters@).0 && t.1 == pair_sums(counters@).1,
{
    let mut rx: u64 = 0;
    let mut tx: u64 = 0;
    let mut i: usize = 0;
    while i < counters.len()
        invariant
            i <= counters@.len(),
            rx == pair_sums(counters@.take(i as int)).0,
            tx == pair_sums(counters@.take(i as int)).1,
        decreases counters.len() - i,
    {
        let (a, b) = counters[i];
        assert(counters@.take(i + 1).drop_last() =~= counters@.take(i as int));
        proof {
            lemma_pair_sums_grow(counters@, i + 1);
        }
        match (rx.checked_add(a), tx.checked_add(b)) {
            (Some(x), Some(y)) => {
                rx = x;
                tx = y;
            },
            _ => {
                return None;
            },
        }
        i = i + 1;
    }
    assert(counters@.take(counters@.len() as int) =~= counters@);
    Some((rx, tx))
}

/// The (total, used) bytes of one disk given its (total, available)
/// bytes.
pub open spec fn disk_use(d: (u64, u64)) -> (u64, u64) {
    (d.0, (d.0 - d.1) as u64)
}

/// Every disk has no more space available than in total.
pub open spec fn disks_consistent(disks: Seq<(u64, u64)>) -> bool {
    forall|i: int| 0 <= i < disks.len() ==> (#[trigger] disks[i]).1 <= disks[i].0
}

/// The total and used bytes over all disks, given each disk's (total,
/// available) bytes; `None` when a disk has more available than total or
/// a sum does not fit in a `u64`.
pub fn disk_totals(disks: &Vec<(u64, u64)>) -> (r: Option<(u64, u64)>)
    ensures
        r is Some <==> disks_consistent(disks@) && sums_fit(disks@.map_values(|d| disk_use(d))),
        r matches Some(t) ==> t.0 == pair_sums(disks@.map_values(|d| disk_use(d))).0 && t.1
            == pair_sums(disks@.map_values(|d| disk_use(d))).1,
{
    let mut uses: Vec<(u64, u64)> = Vec::new();
    let mut i: usize = 0;
    while i < disks.len()
        invariant
            i <= disks@.len(),
            disks_consistent(disks@.take(i as int)),
            uses@ == disks@.take(i as int).map_values(|d| disk_use(d)),
        decreases disks.len() - i,
    {
        let (total, available) = disks[i];
        if available > total {
            assert(!disks_consistent(disks@)) by {
                assert(disks@[i as int] == (total, available));
            }
            return None;
        }
        uses.push((total, total - available));
        assert(disks@.take(i + 1).map_values(|d| disk_use(d)) =~= disks@.take(i as int).map_values(
            |d| disk_use(d),
        ).push(disk_use(disks@[i as int])));
        assert(disks_consistent(disks@.take(i + 1))) by {
            assert forall|j: int| 0 <= j < i + 1 implies (#[trigger] disks@.take(i + 1)[j]).1 <= disks@.take(
                i + 1,
            )[j].0 by {
                if j < i {
                    assert(disks@.take(i + 1)[j] == disks@.take(i as int)[j]);
                }
            }
        }
        i = i + 1;
    }
    assert(disks@.take(disks@.len() as int) =~= disks@);
    network_totals(&uses)
}

} // verus!
