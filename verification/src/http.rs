//! The Prometheus text exposition of snapshots, shared by the server (all
//! nodes) and the service (single node).
//!
//! The exposition is laid out here as a sequence of pieces: a text, then
//! at most one measured reading still to be written in decimal (with one
//! digit after the point, two, or as short as it reads back). Writing out
//! the pieces in order gives the exposition text.
use vstd::prelude::*;

use crate::collector::{CpuCoreSample, GpuSample, InferenceSample, NetSample, Real32, Real64, Snapshot};
use crate::metric_name::{sanitize_metric_name, spec_sanitize_metric_name};
use crate::number::{decimal, decimal_string};
use crate::storage::pair_views;
use crate::text::{append_str, owned};

verus! {

broadcast use vstd::seq_lib::group_seq_properties;

/// A reading still to be written after a piece's text.
#[derive(Clone, Copy, Debug, PartialEq, Eq, Structural)]
pub enum ValueSlot {
    /// Nothing follows the text.
    NoValue,
    /// A single-precision reading with one digit after the point.
    Fixed1(Real32),
    /// A double-precision reading with two digits after the point.
    Fixed2(Real64),
    /// A double-precision reading in its shortest form that reads back.
    Plain(Real64),
}

/// One piece of the exposition.
#[derive(Debug)]
pub struct Piece {
    pub text: String,
    pub slot: ValueSlot,
}

/// A piece as (text, slot).
pub type PieceView = (Seq<char>, ValueSlot);

/// The views of pieces.
pub open spec fn piece_views(ps: Seq<Piece>) -> Seq<PieceView> {
    ps.map_values(|p: Piece| (p.text@, p.slot))
}

/// One metric of a label set: its name, its help text, and its value, as a
/// text followed by a slot.
pub type EntryView = (Seq<char>, Seq<char>, Seq<char>, ValueSlot);

/// An entry with an integer value.
pub open spec fn int_entry(name: Seq<char>, help: Seq<char>, n: nat) -> EntryView {
    (name, help, decimal(n), ValueSlot::NoValue)
}

/// An entry with a reading.
pub open spec fn slot_entry(name: Seq<char>, help: Seq<char>, s: ValueSlot) -> EntryView {
    (name, help, seq![], s)
}

/// An entry with an optional integer value: none when it is absent.
pub open spec fn opt_int_entry(name: Seq<char>, help: Seq<char>, v: Option<u64>) -> Seq<EntryView> {
    match v {
        Some(n) => seq![int_entry(name, help, n as nat)],
        None => seq![],
    }
}

/// An optional 32-bit value widened.
pub open spec fn wide(v: Option<u32>) -> Option<u64> {
    match v {
        Some(n) => Some(n as u64),
        None => None,
    }
}

/// The help line and the sample line of an entry under a label set.
pub open spec fn entry_lines(labels: Seq<char>, e: EntryView) -> Seq<PieceView> {
    seq![
        ("# HELP "@ + e.0 + " "@ + e.1 + "\n"@, ValueSlot::NoValue),
        (e.0 + "{"@ + labels + "} "@ + e.2, e.3),
        ("\n"@, ValueSlot::NoValue),
    ]
}

/// The lines of entries under one label set, in order.
pub open spec fn entries_lines(labels: Seq<char>, es: Seq<EntryView>) -> Seq<PieceView> {
    es.map_values(|e: EntryView| entry_lines(labels, e)).flatten()
}

/// The extra labels as `,name="value"` for each, in order.
pub open spec fn extra_text(extra: Seq<(Seq<char>, Seq<char>)>) -> Seq<char>
    decreases extra.len(),
{
    if extra.len() == 0 {
        seq![]
    } else {
        extra_text(extra.drop_last()) + ","@ + extra.last().0 + "=\""@ + extra.last().1 + "\""@
    }
}

/// `name="value"`.
pub open spec fn label_text(name: Seq<char>, value: Seq<char>) -> Seq<char> {
    name + "=\""@ + value + "\""@
}

/// The labels of the host-level metrics.
pub open spec fn host_labels(snap: Snapshot) -> Seq<char> {
    label_text("hostname"@, snap.host.hostname@) + extra_text(pair_views(snap.extra@))
}

/// The host-level entries of a snapshot.
pub open spec fn host_entries(snap: Snapshot) -> Seq<EntryView> {
    let h = snap.host;
    seq![
        slot_entry("dgmon_cpu_usage_pct"@, "CPU usage percentage"@, ValueSlot::Fixed1(h.cpu_usage_pct)),
        int_entry("dgmon_memory_used_mb"@, "Memory used in MiB"@, h.memory_used_mb as nat),
        int_entry("dgmon_memory_total_mb"@, "Total memory in MiB"@, h.memory_total_mb as nat),
        int_entry("dgmon_uptime_seconds"@, "Host uptime in seconds"@, h.uptime_seconds as nat),
        slot_entry("dgmon_disk_used_gb"@, "Disk space used in GB"@, ValueSlot::Fixed2(h.disk_used_gb)),
        slot_entry("dgmon_disk_total_gb"@, "Total disk space in GB"@, ValueSlot::Fixed2(h.disk_total_gb)),
        int_entry("dgmon_network_rx_bytes"@, "Network bytes received"@, h.network_rx_bytes as nat),
        int_entry("dgmon_network_tx_bytes"@, "Network bytes transmitted"@, h.network_tx_bytes as nat),
    ]
}

/// The labels of one CPU core's metrics.
pub open spec fn core_labels(snap: Snapshot, c: CpuCoreSample) -> Seq<char> {
    label_text("hostname"@, snap.host.hostname@) + ","@ + label_text("core"@, decimal(c.index as nat))
        + extra_text(pair_views(snap.extra@))
}

/// The entries of one CPU core.
pub open spec fn core_entries(c: CpuCoreSample) -> Seq<EntryView> {
    seq![
        slot_entry(
            "dgmon_cpu_core_usage_pct"@,
            "Per-CPU-core utilization percentage"@,
            ValueSlot::Fixed1(c.usage_pct),
        ),
    ] + opt_int_entry("dgmon_cpu_core_freq_mhz"@, "Per-CPU-core frequency in MHz"@, wide(c.freq_mhz))
        + match c.governor {
        Some(g) => seq![("dgmon_cpu_core_governor"@, "CPU scaling governor"@, g@, ValueSlot::NoValue)],
        None => seq![],
    } + opt_int_entry(
        "dgmon_cpu_core_max_freq_mhz"@,
        "Per-CPU-core max frequency in MHz"@,
        wide(c.max_freq_mhz),
    )
}

/// The labels of one interface's metrics.
pub open spec fn net_labels(snap: Snapshot, n: NetSample) -> Seq<char> {
    label_text("hostname"@, snap.host.hostname@) + ","@ + label_text("interface"@, n.interface@) + ","@
        + label_text("role"@, n.role@) + extra_text(pair_views(snap.extra@))
}

/// The entries of one interface.
pub open spec fn net_entries(n: NetSample) -> Seq<EntryView> {
    seq![
        int_entry("dgmon_net_rx_bytes"@, "Per-interface bytes received"@, n.rx_bytes as nat),
        int_entry("dgmon_net_tx_bytes"@, "Per-interface bytes transmitted"@, n.tx_bytes as nat),
        int_entry("dgmon_net_rx_packets"@, "Per-interface packets received"@, n.rx_packets as nat),
        int_entry("dgmon_net_tx_packets"@, "Per-interface packets transmitted"@, n.tx_packets as nat),
    ] + opt_int_entry("dgmon_net_speed_mbps"@, "Per-interface link speed in Mbps"@, n.speed_mbps)
        + seq![
        int_entry(
            "dgmon_net_up"@,
            "Per-interface link up state"@,
            if n.up {
                1
            } else {
                0
            },
        ),
    ]
}

/// The labels of one GPU's metrics.
pub open spec fn gpu_labels(snap: Snapshot, g: GpuSample) -> Seq<char> {
    label_text("hostname"@, snap.host.hostname@) + ","@ + label_text("gpu"@, decimal(g.index as nat))
        + ","@ + label_text("uuid"@, g.uuid@) + ","@ + label_text("model"@, g.name@) + extra_text(
        pair_views(snap.extra@),
    )
}

/// An optional power reading as an entry.
pub open spec fn opt_power_entry(name: Seq<char>, help: Seq<char>, v: Option<Real32>) -> Seq<EntryView> {
    match v {
        Some(x) => seq![slot_entry(name, help, ValueSlot::Fixed1(x))],
        None => seq![],
    }
}

/// A flag as 1 or 0.
pub open spec fn flag(b: bool) -> nat {
    if b {
        1
    } else {
        0
    }
}

/// The optional integer entries of a GPU, in order.
pub open spec fn gpu_optional_ints(g: GpuSample) -> Seq<(Seq<char>, Seq<char>, Option<u64>)> {
    seq![
        ("dgmon_gpu_memory_used_mb"@, "GPU memory used in MiB"@, g.memory_used_mb),
        ("dgmon_gpu_memory_total_mb"@, "GPU memory total in MiB"@, g.memory_total_mb),
        ("dgmon_gpu_fan_speed_pct"@, "GPU fan speed percentage"@, wide(g.fan_speed_pct)),
        ("dgmon_gpu_sm_clock_mhz"@, "GPU SM clock in MHz"@, wide(g.sm_clock_mhz)),
        ("dgmon_gpu_mem_clock_mhz"@, "GPU memory clock in MHz"@, wide(g.mem_clock_mhz)),
        ("dgmon_gpu_sm_clock_max_mhz"@, "GPU max SM clock in MHz"@, wide(g.sm_clock_max_mhz)),
        ("dgmon_gpu_mem_clock_max_mhz"@, "GPU max memory clock in MHz"@, wide(g.mem_clock_max_mhz)),
        ("dgmon_gpu_mem_temp_c"@, "GPU memory temperature in Celsius"@, wide(g.mem_temp_c)),
        ("dgmon_gpu_pcie_link_gen"@, "Current PCIe link generation"@, wide(g.pcie_link_gen)),
        ("dgmon_gpu_pcie_link_gen_max"@, "Max PCIe link generation"@, wide(g.pcie_link_gen_max)),
        ("dgmon_gpu_pcie_link_width"@, "Current PCIe link width in lanes"@, wide(g.pcie_link_width)),
        ("dgmon_gpu_pcie_link_width_max"@, "Max PCIe link width in lanes"@, wide(g.pcie_link_width_max)),
    ]
}

/// The readings of a GPU that are always present.
pub open spec fn gpu_base_entries(g: GpuSample) -> Seq<EntryView> {
    seq![
        int_entry("dgmon_gpu_utilization"@, "GPU utilization percentage"@, g.utilization_gpu as nat),
        int_entry(
            "dgmon_gpu_mem_utilization"@,
            "GPU memory utilization percentage"@,
            g.utilization_memory as nat,
        ),
        int_entry("dgmon_gpu_temp_c"@, "GPU temperature in Celsius"@, g.temperature_c as nat),
    ] + opt_power_entry("dgmon_gpu_power_w"@, "GPU power draw in watts"@, g.power_w) + opt_power_entry(
        "dgmon_gpu_power_limit_w"@,
        "GPU power limit in watts"@,
        g.power_limit_w,
    )
}

/// The optional integer readings of a GPU that are present, in order.
pub open spec fn gpu_optional_entries(g: GpuSample) -> Seq<EntryView> {
    gpu_optional_ints(g).map_values(
        |x: (Seq<char>, Seq<char>, Option<u64>)| opt_int_entry(x.0, x.1, x.2),
    ).flatten()
}

/// The throttle readings of a GPU.
pub open spec fn gpu_throttle_entries(g: GpuSample) -> Seq<EntryView> {
    seq![
        int_entry(
            "dgmon_gpu_throttle_active"@,
            "GPU clock throttle reasons bitmask"@,
            g.throttle_active as nat,
        ),
        int_entry(
            "dgmon_gpu_throttle_hw_thermal"@,
            "HW thermal slowdown active"@,
            flag(g.throttle_hw_thermal),
        ),
        int_entry(
            "dgmon_gpu_throttle_sw_thermal"@,
            "SW thermal slowdown active"@,
            flag(g.throttle_sw_thermal),
        ),
        int_entry("dgmon_gpu_throttle_hw_slowdown"@, "HW slowdown active"@, flag(g.throttle_hw_slowdown)),
        int_entry(
            "dgmon_gpu_throttle_power_brake"@,
            "HW power brake slowdown active"@,
            flag(g.throttle_power_brake),
        ),
    ]
}

/// The entries of one GPU.
pub open spec fn gpu_entries(g: GpuSample) -> Seq<EntryView> {
    gpu_base_entries(g) + gpu_optional_entries(g) + gpu_throttle_entries(g)
}

/// The labels of one inference server's metrics.
pub open spec fn inference_labels(snap: Snapshot, inf: InferenceSample) -> Seq<char> {
    label_text("hostname"@, snap.host.hostname@) + ","@ + label_text("engine"@, inf.engine@) + ","@
        + label_text("model_name"@, inf.model_name@) + extra_text(pair_views(snap.extra@))
}

/// The sample lines of one inference server: one per scraped metric, under
/// its sanitized name, without help lines.
pub open spec fn inference_lines(labels: Seq<char>, inf: InferenceSample) -> Seq<PieceView> {
    inf.metrics@.map_values(
        |m: (String, Real64)|
            seq![
                (spec_sanitize_metric_name(m.0@) + "{"@ + labels + "} "@, ValueSlot::Plain(m.1)),
                ("\n"@, ValueSlot::NoValue),
            ],
    ).flatten()
}

/// The lines of every CPU core of a snapshot, core by core.
pub open spec fn cores_lines(snap: Snapshot) -> Seq<PieceView> {
    snap.host.cpu_cores@.map_values(
        |c: CpuCoreSample| entries_lines(core_labels(snap, c), core_entries(c)),
    ).flatten()
}

/// The lines of every interface of a snapshot, interface by interface.
pub open spec fn nets_lines(snap: Snapshot) -> Seq<PieceView> {
    snap.host.networks@.map_values(|n: NetSample| entries_lines(net_labels(snap, n), net_entries(n))).flatten()
}

/// The lines of every GPU of a snapshot, GPU by GPU.
pub open spec fn gpus_lines(snap: Snapshot) -> Seq<PieceView> {
    snap.gpus@.map_values(|g: GpuSample| entries_lines(gpu_labels(snap, g), gpu_entries(g))).flatten()
}

/// The lines of every inference server of a snapshot, server by server.
pub open spec fn inferences_lines(snap: Snapshot) -> Seq<PieceView> {
    snap.inference@.map_values(|i: InferenceSample| inference_lines(inference_labels(snap, i), i)).flatten()
}

/// The exposition of one snapshot: host metrics, then per core, per
/// interface, per GPU and per scraped inference metric.
pub open spec fn snapshot_exposition(snap: Snapshot) -> Seq<PieceView> {
    entries_lines(host_labels(snap), host_entries(snap)) + cores_lines(snap) + nets_lines(snap)
        + gpus_lines(snap) + inferences_lines(snap)
}

/// The exposition of snapshots, one after another.
pub open spec fn exposition(snaps: Seq<Snapshot>) -> Seq<PieceView> {
    snaps.map_values(|s: Snapshot| snapshot_exposition(s)).flatten()
}

// ---------------------------------------------------------------------
// Building the pieces.
// ---------------------------------------------------------------------
/// One metric to write: name, help text, value text and reading.
struct Entry {
    name: &'static str,
    help: &'static str,
    text: String,
    slot: ValueSlot,
}

spec fn entry_view(e: Entry) -> EntryView {
    (e.name@, e.help@, e.text@, e.slot)
}

spec fn entry_views(es: Seq<Entry>) -> Seq<EntryView> {
    es.map_values(|e: Entry| entry_view(e))
}

fn push_int_entry(es: &mut Vec<Entry>, name: &'static str, help: &'static str, n: u64)
    ensures
        entry_views(final(es)@) == entry_views(old(es)@).push(int_entry(name@, help@, n as nat)),
{
    let e = Entry { name, help, text: decimal_string(n), slot: ValueSlot::NoValue };
    let ghost before = es@;
    es.push(e);
    assert(entry_views(es@) =~= entry_views(before).push(entry_view(e)));
}

fn push_slot_entry(es: &mut Vec<Entry>, name: &'static str, help: &'static str, s: ValueSlot)
    ensures
        entry_views(final(es)@) == entry_views(old(es)@).push(slot_entry(name@, help@, s)),
{
    let e = Entry { name, help, text: String::new(), slot: s };
    let ghost before = es@;
    es.push(e);
    assert(entry_views(es@) =~= entry_views(before).push(entry_view(e)));
}

fn push_opt_int_entry(es: &mut Vec<Entry>, name: &'static str, help: &'static str, v: Option<u64>)
    ensures
        entry_views(final(es)@) == entry_views(old(es)@) + opt_int_entry(name@, help@, v),
{
    match v {
        Some(n) => {
            push_int_entry(es, name, help, n);
        },
        None => {},
    }
    assert(entry_views(es@) =~= entry_views(old(es)@) + opt_int_entry(name@, help@, v));
}

fn wide_exec(v: Option<u32>) -> (r: Option<u64>)
    ensures
        r == wide(v),
{
    match v {
        Some(n) => Some(n as u64),
        None => None,
    }
}

fn push_piece(out: &mut Vec<Piece>, text: String, slot: ValueSlot)
    ensures
        piece_views(final(out)@) == piece_views(old(out)@).push((text@, slot)),
{
    let p = Piece { text, slot };
    let ghost before = out@;
    out.push(p);
    assert(piece_views(out@) =~= piece_views(before).push((p.text@, p.slot)));
}

/// Append the lines of one entry.
fn push_entry_lines(out: &mut Vec<Piece>, labels: &String, e: &Entry)
    ensures
        piece_views(final(out)@) == piece_views(old(out)@) + entry_lines(labels@, entry_view(*e)),
{
    let mut help = owned("# HELP ");
    append_str(&mut help, e.name);
    append_str(&mut help, " ");
    append_str(&mut help, e.help);
    append_str(&mut help, "\n");
    push_piece(out, help, ValueSlot::NoValue);
    let mut line = owned(e.name);
    append_str(&mut line, "{");
    append_str(&mut line, labels.as_str());
    append_str(&mut line, "} ");
    append_str(&mut line, e.text.as_str());
    push_piece(out, line, e.slot);
    push_piece(out, owned("\n"), ValueSlot::NoValue);
    assert(piece_views(out@) =~= piece_views(old(out)@) + entry_lines(labels@, entry_view(*e)));
}

/// Append the lines of entries under one label set.
#[verifier::loop_isolation(false)]
fn push_entries_lines(out: &mut Vec<Piece>, labels: &String, es: &Vec<Entry>)
    ensures
        piece_views(final(out)@) == piece_views(old(out)@) + entries_lines(labels@, entry_views(es@)),
{
    let ghost ev = entry_views(es@);
    let ghost f = |e: EntryView| entry_lines(labels@, e);
    let mut i: usize = 0;
    while i < es.len()
        invariant
            i <= es@.len(),
            piece_views(out@) == piece_views(old(out)@) + ev.take(i as int).map_values(f).flatten(),
        decreases es.len() - i,
    {
        push_entry_lines(out, labels, &es[i]);
        proof {
            assert(ev[i as int] == entry_view(es@[i as int]));
            assert(ev.take(i + 1).map_values(f) =~= ev.take(i as int).map_values(f).push(f(ev[i as int])));
            ev.take(i as int).map_values(f).lemma_flatten_push(f(ev[i as int]));
            assert(piece_views(out@) =~= piece_views(old(out)@) + ev.take(i + 1).map_values(f).flatten());
        }
        i = i + 1;
    }
    assert(ev.take(ev.len() as int) =~= ev);
}

/// `name="value"` appended to `s`.
fn append_label(s: &mut String, name: &str, value: &str)
    ensures
        final(s)@ == old(s)@ + label_text(name@, value@),
{
    append_str(s, name);
    append_str(s, "=\"");
    append_str(s, value);
    append_str(s, "\"");
    assert(final(s)@ =~= old(s)@ + label_text(name@, value@));
}

/// The extra labels as text.
fn extra_labels_text(extra: &Vec<(String, String)>) -> (r: String)
    ensures
        r@ == extra_text(pair_views(extra@)),
{
    let mut out = String::new();
    let mut i: usize = 0;
    while i < extra.len()
        invariant
            i <= extra@.len(),
            out@ == extra_text(pair_views(extra@).take(i as int)),
        decreases extra.len() - i,
    {
        append_str(&mut out, ",");
        append_label(&mut out, extra[i].0.as_str(), extra[i].1.as_str());
        proof {
            let pv = pair_views(extra@);
            assert(pv.take(i + 1).drop_last() =~= pv.take(i as int));
            assert(pv.take(i + 1).last() == pv[i as int]);
            assert(out@ =~= extra_text(pv.take(i + 1)));
        }
        i = i + 1;
    }
    assert(pair_views(extra@).take(extra@.len() as int) =~= pair_views(extra@));
    out
}

fn host_entries_exec(snap: &Snapshot) -> (r: Vec<Entry>)
    ensures
        entry_views(r@) == host_entries(*snap),
{
    let h = &snap.host;
    let mut es: Vec<Entry> = Vec::new();
    push_slot_entry(&mut es, "dgmon_cpu_usage_pct", "CPU usage percentage", ValueSlot::Fixed1(h.cpu_usage_pct));
    push_int_entry(&mut es, "dgmon_memory_used_mb", "Memory used in MiB", h.memory_used_mb);
    push_int_entry(&mut es, "dgmon_memory_total_mb", "Total memory in MiB", h.memory_total_mb);
    push_int_entry(&mut es, "dgmon_uptime_seconds", "Host uptime in seconds", h.uptime_seconds);
    push_slot_entry(&mut es, "dgmon_disk_used_gb", "Disk space used in GB", ValueSlot::Fixed2(h.disk_used_gb));
    push_slot_entry(&mut es, "dgmon_disk_total_gb", "Total disk space in GB", ValueSlot::Fixed2(h.disk_total_gb));
    push_int_entry(&mut es, "dgmon_network_rx_bytes", "Network bytes received", h.network_rx_bytes);
    push_int_entry(&mut es, "dgmon_network_tx_bytes", "Network bytes transmitted", h.network_tx_bytes);
    assert(entry_views(es@) =~= host_entries(*snap));
    es
}

fn core_entries_exec(c: &CpuCoreSample) -> (r: Vec<Entry>)
    ensures
        entry_views(r@) == core_entries(*c),
{
    let mut es: Vec<Entry> = Vec::new();
    push_slot_entry(
        &mut es,
        "dgmon_cpu_core_usage_pct",
        "Per-CPU-core utilization percentage",
        ValueSlot::Fixed1(c.usage_pct),
    );
    push_opt_int_entry(&mut es, "dgmon_cpu_core_freq_mhz", "Per-CPU-core frequency in MHz", wide_exec(c.freq_mhz));
    match &c.governor {
        Some(g) => {
            let e = Entry {
                name: "dgmon_cpu_core_governor",
                help: "CPU scaling governor",
                text: g.clone(),
                slot: ValueSlot::NoValue,
            };
            let ghost before = es@;
            es.push(e);
            assert(entry_views(es@) =~= entry_views(before).push(entry_view(e)));
        },
        None => {},
    }
    push_opt_int_entry(
        &mut es,
        "dgmon_cpu_core_max_freq_mhz",
        "Per-CPU-core max frequency in MHz",
        wide_exec(c.max_freq_mhz),
    );
    assert(entry_views(es@) =~= core_entries(*c));
    es
}

fn net_entries_exec(n: &NetSample) -> (r: Vec<Entry>)
    ensures
        entry_views(r@) == net_entries(*n),
{
    let mut es: Vec<Entry> = Vec::new();
    push_int_entry(&mut es, "dgmon_net_rx_bytes", "Per-interface bytes received", n.rx_bytes);
    push_int_entry(&mut es, "dgmon_net_tx_bytes", "Per-interface bytes transmitted", n.tx_bytes);
    push_int_entry(&mut es, "dgmon_net_rx_packets", "Per-interface packets received", n.rx_packets);
    push_int_entry(&mut es, "dgmon_net_tx_packets", "Per-interface packets transmitted", n.tx_packets);
    push_opt_int_entry(&mut es, "dgmon_net_speed_mbps", "Per-interface link speed in Mbps", n.speed_mbps);
    let up: u64 = if n.up {
        1
    } else {
        0
    };
    push_int_entry(&mut es, "dgmon_net_up", "Per-interface link up state", up);
    assert(entry_views(es@) =~= net_entries(*n));
    es
}

/// The optional integer readings of a GPU with their names and help texts.
fn gpu_optional_ints_exec(g: &GpuSample) -> (r: Vec<(&'static str, &'static str, Option<u64>)>)
    ensures
        r@.map_values(|x: (&'static str, &'static str, Option<u64>)| (x.0@, x.1@, x.2))
            == gpu_optional_ints(*g),
{
    let r = vec![
        ("dgmon_gpu_memory_used_mb", "GPU memory used in MiB", g.memory_used_mb),
        ("dgmon_gpu_memory_total_mb", "GPU memory total in MiB", g.memory_total_mb),
        ("dgmon_gpu_fan_speed_pct", "GPU fan speed percentage", wide_exec(g.fan_speed_pct)),
        ("dgmon_gpu_sm_clock_mhz", "GPU SM clock in MHz", wide_exec(g.sm_clock_mhz)),
        ("dgmon_gpu_mem_clock_mhz", "GPU memory clock in MHz", wide_exec(g.mem_clock_mhz)),
        ("dgmon_gpu_sm_clock_max_mhz", "GPU max SM clock in MHz", wide_exec(g.sm_clock_max_mhz)),
        ("dgmon_gpu_mem_clock_max_mhz", "GPU max memory clock in MHz", wide_exec(g.mem_clock_max_mhz)),
        ("dgmon_gpu_mem_temp_c", "GPU memory temperature in Celsius", wide_exec(g.mem_temp_c)),
        ("dgmon_gpu_pcie_link_gen", "Current PCIe link generation", wide_exec(g.pcie_link_gen)),
        ("dgmon_gpu_pcie_link_gen_max", "Max PCIe link generation", wide_exec(g.pcie_link_gen_max)),
        ("dgmon_gpu_pcie_link_width", "Current PCIe link width in lanes", wide_exec(g.pcie_link_width)),
        ("dgmon_gpu_pcie_link_width_max", "Max PCIe link width in lanes", wide_exec(g.pcie_link_width_max)),
    ];
    assert(r@.map_values(|x: (&'static str, &'static str, Option<u64>)| (x.0@, x.1@, x.2))
        =~= gpu_optional_ints(*g));
    r
}

fn push_gpu_base_entries(es: &mut Vec<Entry>, g: &GpuSample)
    ensures
        entry_views(final(es)@) == entry_views(old(es)@) + gpu_base_entries(*g),
{
    push_int_entry(es, "dgmon_gpu_utilization", "GPU utilization percentage", g.utilization_gpu as u64);
    push_int_entry(
        es,
        "dgmon_gpu_mem_utilization",
        "GPU memory utilization percentage",
        g.utilization_memory as u64,
    );
    push_int_entry(es, "dgmon_gpu_temp_c", "GPU temperature in Celsius", g.temperature_c as u64);
    let ghost e3 = entry_views(es@);
    if let Some(p) = g.power_w {
        push_slot_entry(es, "dgmon_gpu_power_w", "GPU power draw in watts", ValueSlot::Fixed1(p));
    }
    assert(entry_views(es@) =~= e3 + opt_power_entry("dgmon_gpu_power_w"@, "GPU power draw in watts"@, g.power_w));
    let ghost e4 = entry_views(es@);
    if let Some(p) = g.power_limit_w {
        push_slot_entry(es, "dgmon_gpu_power_limit_w", "GPU power limit in watts", ValueSlot::Fixed1(p));
    }
    assert(entry_views(es@) =~= e4 + opt_power_entry(
        "dgmon_gpu_power_limit_w"@,
        "GPU power limit in watts"@,
        g.power_limit_w,
    ));
    assert(entry_views(es@) =~= entry_views(old(es)@) + gpu_base_entries(*g));
}

#[verifier::loop_isolation(false)]
fn push_gpu_optional_entries(es: &mut Vec<Entry>, g: &GpuSample)
    ensures
        entry_views(final(es)@) == entry_views(old(es)@) + gpu_optional_entries(*g),
{
    let ghost e5 = entry_views(es@);
    let opts = gpu_optional_ints_exec(g);
    let ghost ov = opts@.map_values(|x: (&'static str, &'static str, Option<u64>)| (x.0@, x.1@, x.2));
    let ghost f = |x: (Seq<char>, Seq<char>, Option<u64>)| opt_int_entry(x.0, x.1, x.2);
    let mut i: usize = 0;
    while i < opts.len()
        invariant
            i <= opts@.len(),
            entry_views(es@) == e5 + ov.take(i as int).map_values(f).flatten(),
        decreases opts.len() - i,
    {
        let (name, help, v) = opts[i];
        push_opt_int_entry(es, name, help, v);
        proof {
            assert(ov[i as int] == (name@, help@, v));
            assert(ov.take(i + 1).map_values(f) =~= ov.take(i as int).map_values(f).push(f(ov[i as int])));
            ov.take(i as int).map_values(f).lemma_flatten_push(f(ov[i as int]));
            assert(entry_views(es@) =~= e5 + ov.take(i + 1).map_values(f).flatten());
        }
        i = i + 1;
    }
    assert(ov.take(ov.len() as int) =~= ov);
}

fn push_gpu_throttle_entries(es: &mut Vec<Entry>, g: &GpuSample)
    ensures
        entry_views(final(es)@) == entry_views(old(es)@) + gpu_throttle_entries(*g),
{
    push_int_entry(es, "dgmon_gpu_throttle_active", "GPU clock throttle reasons bitmask", g.throttle_active);
    push_int_entry(
        es,
        "dgmon_gpu_throttle_hw_thermal",
        "HW thermal slowdown active",
        if g.throttle_hw_thermal { 1 } else { 0 },
    );
    push_int_entry(
        es,
        "dgmon_gpu_throttle_sw_thermal",
        "SW thermal slowdown active",
        if g.throttle_sw_thermal { 1 } else { 0 },
    );
    push_int_entry(
        es,
        "dgmon_gpu_throttle_hw_slowdown",
        "HW slowdown active",
        if g.throttle_hw_slowdown { 1 } else { 0 },
    );
    push_int_entry(
        es,
        "dgmon_gpu_throttle_power_brake",
        "HW power brake slowdown active",
        if g.throttle_power_brake { 1 } else { 0 },
    );
    assert(entry_views(es@) =~= entry_views(old(es)@) + gpu_throttle_entries(*g));
}

fn gpu_entries_exec(g: &GpuSample) -> (r: Vec<Entry>)
    ensures
        entry_views(r@) == gpu_entries(*g),
{
    let mut es: Vec<Entry> = Vec::new();
    assert(entry_views(es@) =~= Seq::<EntryView>::empty());
    push_gpu_base_entries(&mut es, g);
    push_gpu_optional_entries(&mut es, g);
    push_gpu_throttle_entries(&mut es, g);
    assert(entry_views(es@) =~= gpu_entries(*g));
    es
}

/// Append the sample lines of one inference server.
#[verifier::loop_isolation(false)]
fn push_inference_lines(out: &mut Vec<Piece>, labels: &String, inf: &InferenceSample)
    ensures
        piece_views(final(out)@) == piece_views(old(out)@) + inference_lines(labels@, *inf),
{
    let ghost f = |m: (String, Real64)|
        seq![
            (spec_sanitize_metric_name(m.0@) + "{"@ + labels@ + "} "@, ValueSlot::Plain(m.1)),
            ("\n"@, ValueSlot::NoValue),
        ];
    let mut i: usize = 0;
    while i < inf.metrics.len()
        invariant
            i <= inf.metrics@.len(),
            piece_views(out@) == piece_views(old(out)@) + inf.metrics@.take(i as int).map_values(f).flatten(),
        decreases inf.metrics.len() - i,
    {
        let (name, value) = &inf.metrics[i];
        let mut line = sanitize_metric_name(name.as_str());
        append_str(&mut line, "{");
        append_str(&mut line, labels.as_str());
        append_str(&mut line, "} ");
        push_piece(out, line, ValueSlot::Plain(*value));
        push_piece(out, owned("\n"), ValueSlot::NoValue);
        proof {
            let ms = inf.metrics@;
            assert(ms[i as int] == (*name, *value));
            assert(ms.take(i + 1).map_values(f) =~= ms.take(i as int).map_values(f).push(f(ms[i as int])));
            ms.take(i as int).map_values(f).lemma_flatten_push(f(ms[i as int]));
            assert(piece_views(out@) =~= piece_views(old(out)@) + ms.take(i + 1).map_values(f).flatten());
        }
        i = i + 1;
    }
    assert(inf.metrics@.take(inf.metrics@.len() as int) =~= inf.metrics@);
}

#[verifier::loop_isolation(false)]
fn push_cores(out: &mut Vec<Piece>, snap: &Snapshot, extra: &String)
    requires
        extra@ == extra_text(pair_views(snap.extra@)),
    ensures
        piece_views(final(out)@) == piece_views(old(out)@) + cores_lines(*snap),
{
    let host = snap.host.hostname.as_str();
    let ghost p0 = piece_views(out@);
    let ghost fc = |c: CpuCoreSample| entries_lines(core_labels(*snap, c), core_entries(c));
    let mut i: usize = 0;
    while i < snap.host.cpu_cores.len()
        invariant
            i <= snap.host.cpu_cores@.len(),
            piece_views(out@) == p0 + snap.host.cpu_cores@.take(i as int).map_values(fc).flatten(),
        decreases snap.host.cpu_cores.len() - i,
    {
        let c = &snap.host.cpu_cores[i];
        let mut l = String::new();
        append_label(&mut l, "hostname", host);
        append_str(&mut l, ",");
        append_label(&mut l, "core", decimal_string(c.index as u64).as_str());
        append_str(&mut l, extra.as_str());
        assert(l@ =~= core_labels(*snap, *c));
        let ces = core_entries_exec(c);
        push_entries_lines(out, &l, &ces);
        proof {
            let s = snap.host.cpu_cores@;
            assert(s.take(i + 1).map_values(fc) =~= s.take(i as int).map_values(fc).push(fc(s[i as int])));
            s.take(i as int).map_values(fc).lemma_flatten_push(fc(s[i as int]));
            assert(piece_views(out@) =~= p0 + s.take(i + 1).map_values(fc).flatten());
        }
        i = i + 1;
    }
    assert(snap.host.cpu_cores@.take(snap.host.cpu_cores@.len() as int) =~= snap.host.cpu_cores@);
}

#[verifier::loop_isolation(false)]
fn push_nets(out: &mut Vec<Piece>, snap: &Snapshot, extra: &String)
    requires
        extra@ == extra_text(pair_views(snap.extra@)),
    ensures
        piece_views(final(out)@) == piece_views(old(out)@) + nets_lines(*snap),
{
    let host = snap.host.hostname.as_str();
    let ghost p1 = piece_views(out@);
    let ghost fnn = |n: NetSample| entries_lines(net_labels(*snap, n), net_entries(n));
    let mut i: usize = 0;
    while i < snap.host.networks.len()
        invariant
            i <= snap.host.networks@.len(),
            piece_views(out@) == p1 + snap.host.networks@.take(i as int).map_values(fnn).flatten(),
        decreases snap.host.networks.len() - i,
    {
        let n = &snap.host.networks[i];
        let mut l = String::new();
        append_label(&mut l, "hostname", host);
        append_str(&mut l, ",");
        append_label(&mut l, "interface", n.interface.as_str());
        append_str(&mut l, ",");
        append_label(&mut l, "role", n.role.as_str());
        append_str(&mut l, extra.as_str());
        assert(l@ =~= net_labels(*snap, *n));
        let nes = net_entries_exec(n);
        push_entries_lines(out, &l, &nes);
        proof {
            let s = snap.host.networks@;
            assert(s.take(i + 1).map_values(fnn) =~= s.take(i as int).map_values(fnn).push(fnn(s[i as int])));
            s.take(i as int).map_values(fnn).lemma_flatten_push(fnn(s[i as int]));
            assert(piece_views(out@) =~= p1 + s.take(i + 1).map_values(fnn).flatten());
        }
        i = i + 1;
    }
    assert(snap.host.networks@.take(snap.host.networks@.len() as int) =~= snap.host.networks@);
}

#[verifier::loop_isolation(false)]
fn push_gpus(out: &mut Vec<Piece>, snap: &Snapshot, extra: &String)
    requires
        extra@ == extra_text(pair_views(snap.extra@)),
    ensures
        piece_views(final(out)@) == piece_views(old(out)@) + gpus_lines(*snap),
{
    let host = snap.host.hostname.as_str();
    let ghost p2 = piece_views(out@);
    let ghost fg = |g: GpuSample| entries_lines(gpu_labels(*snap, g), gpu_entries(g));
    let mut i: usize = 0;
    while i < snap.gpus.len()
        invariant
            i <= snap.gpus@.len(),
            piece_views(out@) == p2 + snap.gpus@.take(i as int).map_values(fg).flatten(),
        decreases snap.gpus.len() - i,
    {
        let g = &snap.gpus[i];
        let mut l = String::new();
        append_label(&mut l, "hostname", host);
        append_str(&mut l, ",");
        append_label(&mut l, "gpu", decimal_string(g.index as u64).as_str());
        append_str(&mut l, ",");
        append_label(&mut l, "uuid", g.uuid.as_str());
        append_str(&mut l, ",");
        append_label(&mut l, "model", g.name.as_str());
        append_str(&mut l, extra.as_str());
        assert(l@ =~= gpu_labels(*snap, *g));
        let ges = gpu_entries_exec(g);
        push_entries_lines(out, &l, &ges);
        proof {
            let s = snap.gpus@;
            assert(s.take(i + 1).map_values(fg) =~= s.take(i as int).map_values(fg).push(fg(s[i as int])));
            s.take(i as int).map_values(fg).lemma_flatten_push(fg(s[i as int]));
            assert(piece_views(out@) =~= p2 + s.take(i + 1).map_values(fg).flatten());
        }
        i = i + 1;
    }
    assert(snap.gpus@.take(snap.gpus@.len() as int) =~= snap.gpus@);
}

#[verifier::loop_isolation(false)]
fn push_inferences(out: &mut Vec<Piece>, snap: &Snapshot, extra: &String)
    requires
        extra@ == extra_text(pair_views(snap.extra@)),
    ensures
        piece_views(final(out)@) == piece_views(old(out)@) + inferences_lines(*snap),
{
    let host = snap.host.hostname.as_str();
    let ghost p3 = piece_views(out@);
    let ghost fi = |x: InferenceSample| inference_lines(inference_labels(*snap, x), x);
    let mut i: usize = 0;
    while i < snap.inference.len()
        invariant
            i <= snap.inference@.len(),
            piece_views(out@) == p3 + snap.inference@.take(i as int).map_values(fi).flatten(),
        decreases snap.inference.len() - i,
    {
        let inf = &snap.inference[i];
        let mut l = String::new();
        append_label(&mut l, "hostname", host);
        append_str(&mut l, ",");
        append_label(&mut l, "engine", inf.engine.as_str());
        append_str(&mut l, ",");
        append_label(&mut l, "model_name", inf.model_name.as_str());
        append_str(&mut l, extra.as_str());
        assert(l@ =~= inference_labels(*snap, *inf));
        push_inference_lines(out, &l, inf);
        proof {
            let s = snap.inference@;
            assert(s.take(i + 1).map_values(fi) =~= s.take(i as int).map_values(fi).push(fi(s[i as int])));
            s.take(i as int).map_values(fi).lemma_flatten_push(fi(s[i as int]));
            assert(piece_views(out@) =~= p3 + s.take(i + 1).map_values(fi).flatten());
        }
        i = i + 1;
    }
    assert(snap.inference@.take(snap.inference@.len() as int) =~= snap.inference@);
}

/// Append the exposition of one snapshot.
fn push_snapshot(out: &mut Vec<Piece>, snap: &Snapshot)
    ensures
        piece_views(final(out)@) == piece_views(old(out)@) + snapshot_exposition(*snap),
{
    let extra = extra_labels_text(&snap.extra);
    let mut labels = String::new();
    append_label(&mut labels, "hostname", snap.host.hostname.as_str());
    append_str(&mut labels, extra.as_str());
    assert(labels@ =~= host_labels(*snap));
    let es = host_entries_exec(snap);
    push_entries_lines(out, &labels, &es);
    push_cores(out, snap, &extra);
    push_nets(out, snap, &extra);
    push_gpus(out, snap, &extra);
    push_inferences(out, snap, &extra);
    assert(piece_views(out@) =~= piece_views(old(out)@) + snapshot_exposition(*snap));
}

/// Lay out snapshots in the Prometheus text exposition format, one after
/// another.
#[verifier::loop_isolation(false)]
pub fn render_prometheus(snaps: &[&Snapshot]) -> (r: Vec<Piece>)
    ensures
        piece_views(r@) == exposition(snaps@.map_values(|s: &Snapshot| *s)),
{
    let ghost sv = snaps@.map_values(|s: &Snapshot| *s);
    let ghost f = |s: Snapshot| snapshot_exposition(s);
    let mut out: Vec<Piece> = Vec::new();
    let mut i: usize = 0;
    assert(piece_views(out@) =~= Seq::<PieceView>::empty());
    while i < snaps.len()
        invariant
            i <= snaps@.len(),
            sv == snaps@.map_values(|s: &Snapshot| *s),
            piece_views(out@) == sv.take(i as int).map_values(f).flatten(),
        decreases snaps.len() - i,
    {
        push_snapshot(&mut out, snaps[i]);
        proof {
            assert(sv[i as int] == *snaps@[i as int]);
            assert(sv.take(i + 1).map_values(f) =~= sv.take(i as int).map_values(f).push(f(sv[i as int])));
            sv.take(i as int).map_values(f).lemma_flatten_push(f(sv[i as int]));
        }
        i = i + 1;
    }
    assert(sv.take(sv.len() as int) =~= sv);
    out
}

} // verus!
