//! The rows in which a snapshot is stored as labeled time-series data, and
//! the ordering of what the time-series store hands back.
//!
//! Every metric of a snapshot becomes one row: a metric name, a label set
//! (the host name and the snapshot's extra labels first), the snapshot's
//! time in milliseconds and a value.
use vstd::prelude::*;

use crate::collector::{
    CpuCoreSample, GpuSample, InferenceSample, NetSample, Real32, Real64, Snapshot,
};
use crate::metric_name::{sanitize_metric_name, spec_sanitize_metric_name};
use crate::number::{decimal, decimal_string};
use crate::text::owned;

verus! {

broadcast use vstd::seq_lib::group_seq_properties;

/// The value of one stored sample.
#[derive(Clone, Copy, Debug, PartialEq, Eq, Structural)]
pub enum SampleValue {
    /// A single-precision reading.
    Single(Real32),
    /// A double-precision reading.
    Double(Real64),
    /// A count or integer reading.
    Count(u64),
}

/// One labeled sample to store.
#[derive(Debug)]
pub struct MetricRow {
    pub metric: String,
    pub labels: Vec<(String, String)>,
    pub timestamp_ms: i64,
    pub value: SampleValue,
}

/// A label set as (name, value) pairs of chars.
pub type LabelsView = Seq<(Seq<char>, Seq<char>)>;

/// A row as (metric, labels, milliseconds, value).
pub type RowView = (Seq<char>, LabelsView, int, SampleValue);

/// The views of label pairs.
pub open spec fn pair_views(v: Seq<(String, String)>) -> LabelsView {
    v.map_values(|p: (String, String)| (p.0@, p.1@))
}

/// The view of one row.
pub open spec fn row_view(r: MetricRow) -> RowView {
    (r.metric@, pair_views(r.labels@), r.timestamp_ms as int, r.value)
}

/// The views of rows.
pub open spec fn row_views(rs: Seq<MetricRow>) -> Seq<RowView> {
    rs.map_values(|r: MetricRow| row_view(r))
}

/// The labels every row of a snapshot starts with: `hostname` and then the
/// snapshot's extra labels.
pub open spec fn base_labels(snap: Snapshot) -> LabelsView {
    seq![("hostname"@, snap.host.hostname@)] + pair_views(snap.extra@)
}

/// One row, or none when there is no value.
pub open spec fn opt_row(metric: Seq<char>, labels: LabelsView, ts: int, v: Option<SampleValue>) -> Seq<
    RowView,
> {
    match v {
        Some(x) => seq![(metric, labels, ts, x)],
        None => seq![],
    }
}

/// An optional 32-bit count as a sample value.
pub open spec fn count32(v: Option<u32>) -> Option<SampleValue> {
    match v {
        Some(x) => Some(SampleValue::Count(x as u64)),
        None => None,
    }
}

/// An optional 64-bit count as a sample value.
pub open spec fn count64(v: Option<u64>) -> Option<SampleValue> {
    match v {
        Some(x) => Some(SampleValue::Count(x)),
        None => None,
    }
}

/// An optional single-precision reading as a sample value.
pub open spec fn single(v: Option<Real32>) -> Option<SampleValue> {
    match v {
        Some(x) => Some(SampleValue::Single(x)),
        None => None,
    }
}

/// The host-level rows of a snapshot.
pub open spec fn host_rows(snap: Snapshot, ts: int) -> Seq<RowView> {
    let l = base_labels(snap);
    let h = snap.host;
    seq![
        ("dgmon_cpu_usage_pct"@, l, ts, SampleValue::Single(h.cpu_usage_pct)),
        ("dgmon_memory_used_mb"@, l, ts, SampleValue::Count(h.memory_used_mb)),
        ("dgmon_memory_total_mb"@, l, ts, SampleValue::Count(h.memory_total_mb)),
        ("dgmon_uptime_seconds"@, l, ts, SampleValue::Count(h.uptime_seconds)),
        ("dgmon_disk_used_gb"@, l, ts, SampleValue::Double(h.disk_used_gb)),
        ("dgmon_disk_total_gb"@, l, ts, SampleValue::Double(h.disk_total_gb)),
        ("dgmon_network_rx_bytes"@, l, ts, SampleValue::Count(h.network_rx_bytes)),
        ("dgmon_network_tx_bytes"@, l, ts, SampleValue::Count(h.network_tx_bytes)),
    ]
}

/// The row of one CPU core.
pub open spec fn core_rows(base: LabelsView, ts: int, c: CpuCoreSample) -> Seq<RowView> {
    seq![
        (
            "dgmon_cpu_core_usage_pct"@,
            base.push(("core"@, decimal(c.index as nat))),
            ts,
            SampleValue::Single(c.usage_pct),
        ),
    ]
}

/// The rows of one network interface.
pub open spec fn net_rows(base: LabelsView, ts: int, n: NetSample) -> Seq<RowView> {
    let l = base.push(("interface"@, n.interface@)).push(("role"@, n.role@));
    seq![
        ("dgmon_net_rx_bytes"@, l, ts, SampleValue::Count(n.rx_bytes)),
        ("dgmon_net_tx_bytes"@, l, ts, SampleValue::Count(n.tx_bytes)),
        ("dgmon_net_rx_packets"@, l, ts, SampleValue::Count(n.rx_packets)),
        ("dgmon_net_tx_packets"@, l, ts, SampleValue::Count(n.tx_packets)),
    ] + opt_row("dgmon_net_speed_mbps"@, l, ts, count64(n.speed_mbps)) + seq![
        ("dgmon_net_up"@, l, ts, SampleValue::Count(if n.up { 1 } else { 0 })),
    ]
}

/// The labels of one GPU's rows.
pub open spec fn gpu_labels(base: LabelsView, g: GpuSample) -> LabelsView {
    base.push(("gpu"@, decimal(g.index as nat))).push(("uuid"@, g.uuid@)).push(("model"@, g.name@))
}

/// The optional readings of a GPU, each under its metric name, in order.
pub open spec fn gpu_optional(g: GpuSample) -> Seq<(Seq<char>, Option<SampleValue>)> {
    seq![
        ("dgmon_gpu_power_w"@, single(g.power_w)),
        ("dgmon_gpu_power_limit_w"@, single(g.power_limit_w)),
        ("dgmon_gpu_memory_used_mb"@, count64(g.memory_used_mb)),
        ("dgmon_gpu_memory_total_mb"@, count64(g.memory_total_mb)),
        ("dgmon_gpu_fan_speed_pct"@, count32(g.fan_speed_pct)),
        ("dgmon_gpu_sm_clock_mhz"@, count32(g.sm_clock_mhz)),
        ("dgmon_gpu_mem_clock_mhz"@, count32(g.mem_clock_mhz)),
        ("dgmon_gpu_sm_clock_max_mhz"@, count32(g.sm_clock_max_mhz)),
        ("dgmon_gpu_mem_clock_max_mhz"@, count32(g.mem_clock_max_mhz)),
        ("dgmon_gpu_mem_temp_c"@, count32(g.mem_temp_c)),
        ("dgmon_gpu_pcie_link_gen"@, count32(g.pcie_link_gen)),
        ("dgmon_gpu_pcie_link_gen_max"@, count32(g.pcie_link_gen_max)),
        ("dgmon_gpu_pcie_link_width"@, count32(g.pcie_link_width)),
        ("dgmon_gpu_pcie_link_width_max"@, count32(g.pcie_link_width_max)),
    ]
}

/// One row for each present reading of `readings`, in order.
pub open spec fn opt_rows(readings: Seq<(Seq<char>, Option<SampleValue>)>, l: LabelsView, ts: int) -> Seq<
    RowView,
> {
    readings.map_values(|x: (Seq<char>, Option<SampleValue>)| opt_row(x.0, l, ts, x.1)).flatten()
}

/// The rows of one GPU: utilization, memory utilization and temperature,
/// then each optional reading that is present.
pub open spec fn gpu_rows(base: LabelsView, ts: int, g: GpuSample) -> Seq<RowView> {
    let l = gpu_labels(base, g);
    seq![
        ("dgmon_gpu_utilization"@, l, ts, SampleValue::Count(g.utilization_gpu as u64)),
        ("dgmon_gpu_mem_utilization"@, l, ts, SampleValue::Count(g.utilization_memory as u64)),
        ("dgmon_gpu_temp_c"@, l, ts, SampleValue::Count(g.temperature_c as u64)),
    ] + opt_rows(gpu_optional(g), l, ts)
}

/// The rows of one inference server: one per scraped metric, under its
/// sanitized name.
pub open spec fn inference_rows(base: LabelsView, ts: int, inf: InferenceSample) -> Seq<RowView> {
    let l = base.push(("engine"@, inf.engine@)).push(("model_name"@, inf.model_name@));
    inf.metrics@.map_values(
        |m: (String, Real64)| (spec_sanitize_metric_name(m.0@), l, ts, SampleValue::Double(m.1)),
    )
}

/// All rows of a snapshot, in order: host, cores, interfaces, GPUs, inference.
pub open spec fn snapshot_rows(snap: Snapshot) -> Seq<RowView> {
    let ts = snap.timestamp.spec_millis();
    let b = base_labels(snap);
    host_rows(snap, ts) + snap.host.cpu_cores@.map_values(|c: CpuCoreSample| core_rows(b, ts, c)).flatten()
        + snap.host.networks@.map_values(|n: NetSample| net_rows(b, ts, n)).flatten()
        + snap.gpus@.map_values(|g: GpuSample| gpu_rows(b, ts, g)).flatten()
        + snap.inference@.map_values(|i: InferenceSample| inference_rows(b, ts, i)).flatten()
}

/// A copy of a label set.
pub fn clone_labels(v: &Vec<(String, String)>) -> (r: Vec<(String, String)>)
    ensures
        pair_views(r@) == pair_views(v@),
{
    let mut out: Vec<(String, String)> = Vec::new();
    let mut i: usize = 0;
    while i < v.len()
        invariant
            i <= v@.len(),
            pair_views(out@) == pair_views(v@).take(i as int),
        decreases v.len() - i,
    {
        let (a, b) = &v[i];
        let ghost before = out@;
        out.push((a.clone(), b.clone()));
        assert(pair_views(out@) =~= pair_views(before).push((a@, b@)));
        assert(pair_views(v@).take(i + 1) =~= pair_views(v@).take(i as int).push(
            pair_views(v@)[i as int],
        ));
        i = i + 1;
    }
    assert(pair_views(v@).take(v@.len() as int) =~= pair_views(v@));
    out
}

/// `labels` with `(name, value)` added at the end.
fn with_label(labels: &Vec<(String, String)>, name: &str, value: String) -> (r: Vec<
    (String, String),
>)
    ensures
        pair_views(r@) == pair_views(labels@).push((name@, value@)),
{
    let mut out = clone_labels(labels);
    let ghost before = out@;
    out.push((owned(name), value));
    assert(pair_views(out@) =~= pair_views(before).push((name@, value@)));
    out
}

/// Append one row.
fn push_row(
    rows: &mut Vec<MetricRow>,
    metric: String,
    labels: &Vec<(String, String)>,
    ts: i64,
    value: SampleValue,
)
    ensures
        row_views(final(rows)@) == row_views(old(rows)@).push(
            (metric@, pair_views(labels@), ts as int, value),
        ),
{
    let row = MetricRow { metric, labels: clone_labels(labels), timestamp_ms: ts, value };
    let ghost before = rows@;
    rows.push(row);
    assert(row_views(rows@) =~= row_views(before).push(row_view(row)));
}

/// Append one row when there is a value.
fn push_opt_row(
    rows: &mut Vec<MetricRow>,
    metric: &str,
    labels: &Vec<(String, String)>,
    ts: i64,
    value: Option<SampleValue>,
)
    ensures
        row_views(final(rows)@) == row_views(old(rows)@) + opt_row(
            metric@,
            pair_views(labels@),
            ts as int,
            value,
        ),
{
    match value {
        Some(v) => {
            push_row(rows, owned(metric), labels, ts, v);
            assert(row_views(rows@) =~= row_views(old(rows)@) + opt_row(
                metric@,
                pair_views(labels@),
                ts as int,
                value,
            ));
        },
        None => {
            assert(row_views(rows@) =~= row_views(old(rows)@) + opt_row(
                metric@,
                pair_views(labels@),
                ts as int,
                value,
            ));
        },
    }
}

fn count32_exec(v: Option<u32>) -> (r: Option<SampleValue>)
    ensures
        r == count32(v),
{
    match v {
        Some(x) => Some(SampleValue::Count(x as u64)),
        None => None,
    }
}

fn count64_exec(v: Option<u64>) -> (r: Option<SampleValue>)
    ensures
        r == count64(v),
{
    match v {
        Some(x) => Some(SampleValue::Count(x)),
        None => None,
    }
}

fn single_exec(v: Option<Real32>) -> (r: Option<SampleValue>)
    ensures
        r == single(v),
{
    match v {
        Some(x) => Some(SampleValue::Single(x)),
        None => None,
    }
}

/// Append the rows of one CPU core.
fn push_core_rows(rows: &mut Vec<MetricRow>, base: &Vec<(String, String)>, ts: i64, c: &CpuCoreSample)
    ensures
        row_views(final(rows)@) == row_views(old(rows)@) + core_rows(pair_views(base@), ts as int, *c),
{
    let l = with_label(base, "core", decimal_string(c.index as u64));
    push_row(rows, owned("dgmon_cpu_core_usage_pct"), &l, ts, SampleValue::Single(c.usage_pct));
    assert(row_views(rows@) =~= row_views(old(rows)@) + core_rows(pair_views(base@), ts as int, *c));
}

/// Append the rows of one network interface.
fn push_net_rows(rows: &mut Vec<MetricRow>, base: &Vec<(String, String)>, ts: i64, n: &NetSample)
    ensures
        row_views(final(rows)@) == row_views(old(rows)@) + net_rows(pair_views(base@), ts as int, *n),
{
    let l1 = with_label(base, "interface", n.interface.clone());
    let l = with_label(&l1, "role", n.role.clone());
    let ghost lv = pair_views(l@);
    let ghost r0 = row_views(rows@);
    push_row(rows, owned("dgmon_net_rx_bytes"), &l, ts, SampleValue::Count(n.rx_bytes));
    push_row(rows, owned("dgmon_net_tx_bytes"), &l, ts, SampleValue::Count(n.tx_bytes));
    push_row(rows, owned("dgmon_net_rx_packets"), &l, ts, SampleValue::Count(n.rx_packets));
    push_row(rows, owned("dgmon_net_tx_packets"), &l, ts, SampleValue::Count(n.tx_packets));
    let ghost r4 = row_views(rows@);
    push_opt_row(rows, "dgmon_net_speed_mbps", &l, ts, count64_exec(n.speed_mbps));
    let up: u64 = if n.up {
        1
    } else {
        0
    };
    push_row(rows, owned("dgmon_net_up"), &l, ts, SampleValue::Count(up));
    assert(r4 =~= r0 + seq![
        ("dgmon_net_rx_bytes"@, lv, ts as int, SampleValue::Count(n.rx_bytes)),
        ("dgmon_net_tx_bytes"@, lv, ts as int, SampleValue::Count(n.tx_bytes)),
        ("dgmon_net_rx_packets"@, lv, ts as int, SampleValue::Count(n.rx_packets)),
        ("dgmon_net_tx_packets"@, lv, ts as int, SampleValue::Count(n.tx_packets)),
    ]);
    assert(row_views(rows@) =~= row_views(old(rows)@) + net_rows(pair_views(base@), ts as int, *n));
}

/// The optional readings of a GPU under their metric names.
fn gpu_optional_exec(g: &GpuSample) -> (r: Vec<(&'static str, Option<SampleValue>)>)
    ensures
        r@.map_values(|x: (&'static str, Option<SampleValue>)| (x.0@, x.1)) == gpu_optional(*g),
{
    let r = vec![
        ("dgmon_gpu_power_w", single_exec(g.power_w)),
        ("dgmon_gpu_power_limit_w", single_exec(g.power_limit_w)),
        ("dgmon_gpu_memory_used_mb", count64_exec(g.memory_used_mb)),
        ("dgmon_gpu_memory_total_mb", count64_exec(g.memory_total_mb)),
        ("dgmon_gpu_fan_speed_pct", count32_exec(g.fan_speed_pct)),
        ("dgmon_gpu_sm_clock_mhz", count32_exec(g.sm_clock_mhz)),
        ("dgmon_gpu_mem_clock_mhz", count32_exec(g.mem_clock_mhz)),
        ("dgmon_gpu_sm_clock_max_mhz", count32_exec(g.sm_clock_max_mhz)),
        ("dgmon_gpu_mem_clock_max_mhz", count32_exec(g.mem_clock_max_mhz)),
        ("dgmon_gpu_mem_temp_c", count32_exec(g.mem_temp_c)),
        ("dgmon_gpu_pcie_link_gen", count32_exec(g.pcie_link_gen)),
        ("dgmon_gpu_pcie_link_gen_max", count32_exec(g.pcie_link_gen_max)),
        ("dgmon_gpu_pcie_link_width", count32_exec(g.pcie_link_width)),
        ("dgmon_gpu_pcie_link_width_max", count32_exec(g.pcie_link_width_max)),
    ];
    assert(r@.map_values(|x: (&'static str, Option<SampleValue>)| (x.0@, x.1)) =~= gpu_optional(*g));
    r
}

/// Append one row for each present reading.
#[verifier::loop_isolation(false)]
fn push_opt_rows(
    rows: &mut Vec<MetricRow>,
    readings: &Vec<(&'static str, Option<SampleValue>)>,
    labels: &Vec<(String, String)>,
    ts: i64,
)
    ensures
        row_views(final(rows)@) == row_views(old(rows)@) + opt_rows(
            readings@.map_values(|x: (&'static str, Option<SampleValue>)| (x.0@, x.1)),
            pair_views(labels@),
            ts as int,
        ),
{
    let ghost rv = readings@.map_values(|x: (&'static str, Option<SampleValue>)| (x.0@, x.1));
    let ghost lv = pair_views(labels@);
    let ghost f = |x: (Seq<char>, Option<SampleValue>)| opt_row(x.0, lv, ts as int, x.1);
    let mut i: usize = 0;
    while i < readings.len()
        invariant
            i <= readings@.len(),
            rv == readings@.map_values(|x: (&'static str, Option<SampleValue>)| (x.0@, x.1)),
            lv == pair_views(labels@),
            row_views(rows@) == row_views(old(rows)@) + rv.take(i as int).map_values(f).flatten(),
        decreases readings.len() - i,
    {
        let (name, value) = readings[i];
        push_opt_row(rows, name, labels, ts, value);
        proof {
            assert(rv[i as int] == (name@, value));
            assert(rv.take(i + 1).map_values(f) =~= rv.take(i as int).map_values(f).push(f(rv[i as int])));
            rv.take(i as int).map_values(f).lemma_flatten_push(f(rv[i as int]));
            assert(row_views(rows@) =~= row_views(old(rows)@) + rv.take(i + 1).map_values(f).flatten());
        }
        i = i + 1;
    }
    assert(rv.take(rv.len() as int) =~= rv);
}

/// Append the rows of one GPU.
fn push_gpu_rows(rows: &mut Vec<MetricRow>, base: &Vec<(String, String)>, ts: i64, g: &GpuSample)
    ensures
        row_views(final(rows)@) == row_views(old(rows)@) + gpu_rows(pair_views(base@), ts as int, *g),
{
    let l1 = with_label(base, "gpu", decimal_string(g.index as u64));
    let l2 = with_label(&l1, "uuid", g.uuid.clone());
    let l = with_label(&l2, "model", g.name.clone());
    let ghost lv = pair_views(l@);
    assert(lv == gpu_labels(pair_views(base@), *g));
    let ghost t = ts as int;
    let ghost r0 = row_views(rows@);
    push_row(rows, owned("dgmon_gpu_utilization"), &l, ts, SampleValue::Count(g.utilization_gpu as u64));
    push_row(
        rows,
        owned("dgmon_gpu_mem_utilization"),
        &l,
        ts,
        SampleValue::Count(g.utilization_memory as u64),
    );
    push_row(rows, owned("dgmon_gpu_temp_c"), &l, ts, SampleValue::Count(g.temperature_c as u64));
    let ghost r3 = row_views(rows@);
    assert(r3 =~= r0 + seq![
        ("dgmon_gpu_utilization"@, lv, t, SampleValue::Count(g.utilization_gpu as u64)),
        ("dgmon_gpu_mem_utilization"@, lv, t, SampleValue::Count(g.utilization_memory as u64)),
        ("dgmon_gpu_temp_c"@, lv, t, SampleValue::Count(g.temperature_c as u64)),
    ]);
    let readings = gpu_optional_exec(g);
    push_opt_rows(rows, &readings, &l, ts);
    assert(row_views(rows@) =~= row_views(old(rows)@) + gpu_rows(pair_views(base@), ts as int, *g));
}

/// Append the rows of one inference server.
#[verifier::loop_isolation(false)]
fn push_inference_rows(
    rows: &mut Vec<MetricRow>,
    base: &Vec<(String, String)>,
    ts: i64,
    inf: &InferenceSample,
)
    ensures
        row_views(final(rows)@) == row_views(old(rows)@) + inference_rows(
            pair_views(base@),
            ts as int,
            *inf,
        ),
{
    let l1 = with_label(base, "engine", inf.engine.clone());
    let l = with_label(&l1, "model_name", inf.model_name.clone());
    let ghost lv = pair_views(l@);
    let ghost f = |m: (String, Real64)|
        (spec_sanitize_metric_name(m.0@), lv, ts as int, SampleValue::Double(m.1));
    let mut i: usize = 0;
    while i < inf.metrics.len()
        invariant
            i <= inf.metrics@.len(),
            lv == pair_views(l@),
            row_views(rows@) == row_views(old(rows)@) + inf.metrics@.take(i as int).map_values(f),
        decreases inf.metrics.len() - i,
    {
        let (name, value) = &inf.metrics[i];
        let metric = sanitize_metric_name(name.as_str());
        push_row(rows, metric, &l, ts, SampleValue::Double(*value));
        assert(inf.metrics@.take(i + 1).map_values(f) =~= inf.metrics@.take(i as int).map_values(
            f,
        ).push(f(inf.metrics@[i as int])));
        assert(row_views(rows@) =~= row_views(old(rows)@) + inf.metrics@.take(i + 1).map_values(f));
        i = i + 1;
    }
    assert(inf.metrics@.take(inf.metrics@.len() as int) =~= inf.metrics@);
    assert(inf.metrics@.map_values(f) =~= inference_rows(pair_views(base@), ts as int, *inf));
}

/// Append the rows of each CPU core, one after another.
#[verifier::loop_isolation(false)]
fn push_all_core_rows(rows: &mut Vec<MetricRow>, base: &Vec<(String, String)>, ts: i64, cores: &Vec<CpuCoreSample>)
    ensures
        row_views(final(rows)@) == row_views(old(rows)@) + cores@.map_values(
            |x: CpuCoreSample| core_rows(pair_views(base@), ts as int, x),
        ).flatten(),
{
    let ghost r0 = row_views(rows@);
    let ghost f = |x: CpuCoreSample| core_rows(pair_views(base@), ts as int, x);
    let mut i: usize = 0;
    while i < cores.len()
        invariant
            i <= cores@.len(),
            row_views(rows@) == r0 + cores@.take(i as int).map_values(f).flatten(),
        decreases cores.len() - i,
    {
        push_core_rows(rows, base, ts, &cores[i]);
        proof {
            assert(cores@.take(i + 1).map_values(f) =~= cores@.take(i as int).map_values(f).push(
                f(cores@[i as int]),
            ));
            cores@.take(i as int).map_values(f).lemma_flatten_push(f(cores@[i as int]));
            assert(row_views(rows@) =~= r0 + cores@.take(i + 1).map_values(f).flatten());
        }
        i = i + 1;
    }
    assert(cores@.take(cores@.len() as int) =~= cores@);
}

/// Append the rows of each network interface, one after another.
#[verifier::loop_isolation(false)]
fn push_all_net_rows(rows: &mut Vec<MetricRow>, base: &Vec<(String, String)>, ts: i64, nets: &Vec<NetSample>)
    ensures
        row_views(final(rows)@) == row_views(old(rows)@) + nets@.map_values(
            |x: NetSample| net_rows(pair_views(base@), ts as int, x),
        ).flatten(),
{
    let ghost r0 = row_views(rows@);
    let ghost f = |x: NetSample| net_rows(pair_views(base@), ts as int, x);
    let mut i: usize = 0;
    while i < nets.len()
        invariant
            i <= nets@.len(),
            row_views(rows@) == r0 + nets@.take(i as int).map_values(f).flatten(),
        decreases nets.len() - i,
    {
        push_net_rows(rows, base, ts, &nets[i]);
        proof {
            assert(nets@.take(i + 1).map_values(f) =~= nets@.take(i as int).map_values(f).push(
                f(nets@[i as int]),
            ));
            nets@.take(i as int).map_values(f).lemma_flatten_push(f(nets@[i as int]));
            assert(row_views(rows@) =~= r0 + nets@.take(i + 1).map_values(f).flatten());
        }
        i = i + 1;
    }
    assert(nets@.take(nets@.len() as int) =~= nets@);
}

/// Append the rows of each GPU, one after another.
#[verifier::loop_isolation(false)]
fn push_all_gpu_rows(rows: &mut Vec<MetricRow>, base: &Vec<(String, String)>, ts: i64, gpus: &Vec<GpuSample>)
    ensures
        row_views(final(rows)@) == row_views(old(rows)@) + gpus@.map_values(
            |x: GpuSample| gpu_rows(pair_views(base@), ts as int, x),
        ).flatten(),
{
    let ghost r0 = row_views(rows@);
    let ghost f = |x: GpuSample| gpu_rows(pair_views(base@), ts as int, x);
    let mut i: usize = 0;
    while i < gpus.len()
        invariant
            i <= gpus@.len(),
            row_views(rows@) == r0 + gpus@.take(i as int).map_values(f).flatten(),
        decreases gpus.len() - i,
    {
        push_gpu_rows(rows, base, ts, &gpus[i]);
        proof {
            assert(gpus@.take(i + 1).map_values(f) =~= gpus@.take(i as int).map_values(f).push(
                f(gpus@[i as int]),
            ));
            gpus@.take(i as int).map_values(f).lemma_flatten_push(f(gpus@[i as int]));
            assert(row_views(rows@) =~= r0 + gpus@.take(i + 1).map_values(f).flatten());
        }
        i = i + 1;
    }
    assert(gpus@.take(gpus@.len() as int) =~= gpus@);
}

/// Append the rows of each inference server, one after another.
#[verifier::loop_isolation(false)]
fn push_all_inference_rows(rows: &mut Vec<MetricRow>, base: &Vec<(String, String)>, ts: i64, servers: &Vec<InferenceSample>)
    ensures
        row_views(final(rows)@) == row_views(old(rows)@) + servers@.map_values(
            |x: InferenceSample| inference_rows(pair_views(base@), ts as int, x),
        ).flatten(),
{
    let ghost r0 = row_views(rows@);
    let ghost f = |x: InferenceSample| inference_rows(pair_views(base@), ts as int, x);
    let mut i: usize = 0;
    while i < servers.len()
        invariant
            i <= servers@.len(),
            row_views(rows@) == r0 + servers@.take(i as int).map_values(f).flatten(),
        decreases servers.len() - i,
    {
        push_inference_rows(rows, base, ts, &servers[i]);
        proof {
            assert(servers@.take(i + 1).map_values(f) =~= servers@.take(i as int).map_values(f).push(
                f(servers@[i as int]),
            ));
            servers@.take(i as int).map_values(f).lemma_flatten_push(f(servers@[i as int]));
            assert(row_views(rows@) =~= r0 + servers@.take(i + 1).map_values(f).flatten());
        }
        i = i + 1;
    }
    assert(servers@.take(servers@.len() as int) =~= servers@);
}

/// The labels that every row of `snap` carries: the host name, then the
/// snapshot's extra labels.
fn snapshot_labels(snap: &Snapshot) -> (r: Vec<(String, String)>)
    ensures
        pair_views(r@) == base_labels(*snap),
{
    let mut base: Vec<(String, String)> = Vec::new();
    base.push((owned("hostname"), snap.host.hostname.clone()));
    let mut k: usize = 0;
    while k < snap.extra.len()
        invariant
            k <= snap.extra@.len(),
            pair_views(base@) == seq![("hostname"@, snap.host.hostname@)] + pair_views(
                snap.extra@,
            ).take(k as int),
        decreases snap.extra.len() - k,
    {
        let (a, b) = &snap.extra[k];
        let ghost before = base@;
        base.push((a.clone(), b.clone()));
        assert(pair_views(base@) =~= pair_views(before).push((a@, b@)));
        assert(pair_views(snap.extra@).take(k + 1) =~= pair_views(snap.extra@).take(k as int).push(
            pair_views(snap.extra@)[k as int],
        ));
        k = k + 1;
    }
    assert(pair_views(snap.extra@).take(snap.extra@.len() as int) =~= pair_views(snap.extra@));
    base
}

/// Append the host-wide rows of `snap`, labeled with `base`.
fn push_host_rows(rows: &mut Vec<MetricRow>, base: &Vec<(String, String)>, ts: i64, snap: &Snapshot)
    requires
        pair_views(base@) == base_labels(*snap),
    ensures
        row_views(final(rows)@) == row_views(old(rows)@) + host_rows(*snap, ts as int),
{
    let h = &snap.host;
    push_row(rows, owned("dgmon_cpu_usage_pct"), base, ts, SampleValue::Single(h.cpu_usage_pct));
    push_row(rows, owned("dgmon_memory_used_mb"), base, ts, SampleValue::Count(h.memory_used_mb));
    push_row(rows, owned("dgmon_memory_total_mb"), base, ts, SampleValue::Count(h.memory_total_mb));
    push_row(rows, owned("dgmon_uptime_seconds"), base, ts, SampleValue::Count(h.uptime_seconds));
    push_row(rows, owned("dgmon_disk_used_gb"), base, ts, SampleValue::Double(h.disk_used_gb));
    push_row(rows, owned("dgmon_disk_total_gb"), base, ts, SampleValue::Double(h.disk_total_gb));
    push_row(rows, owned("dgmon_network_rx_bytes"), base, ts, SampleValue::Count(h.network_rx_bytes));
    push_row(rows, owned("dgmon_network_tx_bytes"), base, ts, SampleValue::Count(h.network_tx_bytes));
    assert(row_views(rows@) =~= row_views(old(rows)@) + host_rows(*snap, ts as int));
}

/// The rows in which `snap` is stored: host metrics, then per core,
/// per interface, per GPU and per scraped inference metric, each labeled
/// with the host name and the snapshot's extra labels.
pub fn snapshot_to_rows(snap: &Snapshot) -> (r: Vec<MetricRow>)
    requires
        snap.timestamp.in_range(),
    ensures
        row_views(r@) == snapshot_rows(*snap),
{
    let ts = snap.timestamp.millis();
    let base = snapshot_labels(snap);
    let mut rows: Vec<MetricRow> = Vec::new();
    push_host_rows(&mut rows, &base, ts, snap);
    push_all_core_rows(&mut rows, &base, ts, &snap.host.cpu_cores);
    push_all_net_rows(&mut rows, &base, ts, &snap.host.networks);
    push_all_gpu_rows(&mut rows, &base, ts, &snap.gpus);
    push_all_inference_rows(&mut rows, &base, ts, &snap.inference);
    assert(row_views(rows@) =~= snapshot_rows(*snap));
    rows
}

} // verus!
