//! Laws that tie each reading of a snapshot (host, CPU core, interface,
//! GPU) to the stored row and the exposition line that carry it under the
//! metric of its own name.
use vstd::prelude::*;

use crate::collector::{GpuSample, Snapshot};
use crate::http::{
    core_entries, core_labels, cores_lines, entries_lines, entry_lines, exposition, extra_text,
    gpu_base_entries, gpu_entries, gpu_labels as line_labels, gpu_optional_ints, gpu_throttle_entries,
    gpus_lines, host_entries, host_labels, inferences_lines, int_entry, label_text, net_entries,
    net_labels, nets_lines, opt_int_entry, opt_power_entry, slot_entry, snapshot_exposition, EntryView,
    PieceView, ValueSlot,
};
use crate::number::decimal;
use crate::storage::{
    base_labels, gpu_labels, gpu_optional, gpu_rows, host_rows, inference_rows, net_rows, core_rows,
    opt_row, snapshot_rows, LabelsView, RowView, SampleValue,
};

verus! {

broadcast use vstd::seq_lib::group_seq_properties;

// ---------------------------------------------------------------------
// Membership in concatenations and flattenings.
// ---------------------------------------------------------------------
proof fn lemma_flatten_contains<A>(ss: Seq<Seq<A>>, k: int, x: A)
    requires
        0 <= k < ss.len(),
        ss[k].contains(x),
    ensures
        ss.flatten().contains(x),
    decreases ss.len(),
{
    let rest = ss.drop_first();
    assert(ss.flatten() == ss.first() + rest.flatten());
    if k == 0 {
        let i = choose|i: int| 0 <= i < ss[0].len() && ss[0][i] == x;
        assert(ss.flatten()[i] == x);
    } else {
        assert(rest[k - 1] == ss[k]);
        lemma_flatten_contains(rest, k - 1, x);
        let i = choose|i: int| 0 <= i < rest.flatten().len() && rest.flatten()[i] == x;
        assert(ss.flatten()[ss.first().len() + i] == x);
    }
}

proof fn lemma_concat_contains<A>(a: Seq<A>, b: Seq<A>, x: A)
    requires
        a.contains(x) || b.contains(x),
    ensures
        (a + b).contains(x),
{
    if a.contains(x) {
        let i = choose|i: int| 0 <= i < a.len() && a[i] == x;
        assert((a + b)[i] == x);
    } else {
        let i = choose|i: int| 0 <= i < b.len() && b[i] == x;
        assert((a + b)[a.len() + i] == x);
    }
}

// ---------------------------------------------------------------------
// Stored rows.
// ---------------------------------------------------------------------
/// The labels of the stored rows of GPU `g` of `snap`: the snapshot's
/// labels, then `gpu`, `uuid` and `model`.
pub open spec fn stored_gpu_labels(snap: Snapshot, g: crate::collector::GpuSample) -> LabelsView {
    base_labels(snap).push(("gpu"@, decimal(g.index as nat))).push(("uuid"@, g.uuid@)).push(
        ("model"@, g.name@),
    )
}

proof fn lemma_stored_gpu_row(snap: Snapshot, j: int, r: RowView)
    requires
        0 <= j < snap.gpus@.len(),
        gpu_rows(base_labels(snap), snap.timestamp.spec_millis(), snap.gpus@[j]).contains(r),
    ensures
        snapshot_rows(snap).contains(r),
{
    let b = base_labels(snap);
    let ts = snap.timestamp.spec_millis();
    let hr = host_rows(snap, ts);
    let cs = snap.host.cpu_cores@.map_values(|c: crate::collector::CpuCoreSample| core_rows(b, ts, c));
    let ns = snap.host.networks@.map_values(|n: crate::collector::NetSample| net_rows(b, ts, n));
    let gs = snap.gpus@.map_values(|g: crate::collector::GpuSample| gpu_rows(b, ts, g));
    let is = snap.inference@.map_values(
        |x: crate::collector::InferenceSample| inference_rows(b, ts, x),
    );
    assert(gs[j] == gpu_rows(b, ts, snap.gpus@[j]));
    lemma_flatten_contains(gs, j, r);
    lemma_concat_contains(hr + cs.flatten() + ns.flatten(), gs.flatten(), r);
    lemma_concat_contains(hr + cs.flatten() + ns.flatten() + gs.flatten(), is.flatten(), r);
    assert(snapshot_rows(snap) == hr + cs.flatten() + ns.flatten() + gs.flatten() + is.flatten());
}

proof fn lemma_stored_optional(snap: Snapshot, j: int, m: int, v: SampleValue)
    requires
        0 <= j < snap.gpus@.len(),
        0 <= m < gpu_optional(snap.gpus@[j]).len(),
        gpu_optional(snap.gpus@[j])[m].1 == Some(v),
    ensures
        snapshot_rows(snap).contains(
            (
                gpu_optional(snap.gpus@[j])[m].0,
                stored_gpu_labels(snap, snap.gpus@[j]),
                snap.timestamp.spec_millis(),
                v,
            ),
        ),
{
    let g = snap.gpus@[j];
    let b = base_labels(snap);
    let ts = snap.timestamp.spec_millis();
    let l = gpu_labels(b, g);
    let x = gpu_optional(g)[m];
    let row = (x.0, l, ts, v);
    let ss = gpu_optional(g).map_values(
        |y: (Seq<char>, Option<SampleValue>)| opt_row(y.0, l, ts, y.1),
    );
    assert(ss[m] == opt_row(x.0, l, ts, x.1));
    assert(ss[m][0] == row);
    lemma_flatten_contains(ss, m, row);
    let fixed = seq![
        ("dgmon_gpu_utilization"@, l, ts, SampleValue::Count(g.utilization_gpu as u64)),
        ("dgmon_gpu_mem_utilization"@, l, ts, SampleValue::Count(g.utilization_memory as u64)),
        ("dgmon_gpu_temp_c"@, l, ts, SampleValue::Count(g.temperature_c as u64)),
    ];
    lemma_concat_contains(fixed, ss.flatten(), row);
    assert(gpu_rows(b, ts, g) == fixed + ss.flatten());
    lemma_stored_gpu_row(snap, j, row);
}

proof fn lemma_stored_fixed(snap: Snapshot, j: int)
    requires
        0 <= j < snap.gpus@.len(),
    ensures
        ({
            let g = snap.gpus@[j];
            let l = stored_gpu_labels(snap, g);
            let t = snap.timestamp.spec_millis();
            let rows = snapshot_rows(snap);
            &&& rows.contains(("dgmon_gpu_utilization"@, l, t, SampleValue::Count(g.utilization_gpu as u64)))
            &&& rows.contains(
                ("dgmon_gpu_mem_utilization"@, l, t, SampleValue::Count(g.utilization_memory as u64)),
            )
            &&& rows.contains(("dgmon_gpu_temp_c"@, l, t, SampleValue::Count(g.temperature_c as u64)))
        }),
{
    let g = snap.gpus@[j];
    let b = base_labels(snap);
    let ts = snap.timestamp.spec_millis();
    let l = gpu_labels(b, g);
    let fixed = seq![
        ("dgmon_gpu_utilization"@, l, ts, SampleValue::Count(g.utilization_gpu as u64)),
        ("dgmon_gpu_mem_utilization"@, l, ts, SampleValue::Count(g.utilization_memory as u64)),
        ("dgmon_gpu_temp_c"@, l, ts, SampleValue::Count(g.temperature_c as u64)),
    ];
    let rest = crate::storage::opt_rows(gpu_optional(g), l, ts);
    assert(gpu_rows(b, ts, g) == fixed + rest);
    assert((fixed + rest)[0] == fixed[0]);
    assert((fixed + rest)[1] == fixed[1]);
    assert((fixed + rest)[2] == fixed[2]);
    lemma_stored_gpu_row(snap, j, fixed[0]);
    lemma_stored_gpu_row(snap, j, fixed[1]);
    lemma_stored_gpu_row(snap, j, fixed[2]);
}

/// Every reading of a GPU is stored under the metric that names it: each
/// row carries the snapshot's labels with the GPU's `gpu`, `uuid` and
/// `model`, the snapshot's time, and the reading of that name (optional
/// readings only when present).
pub proof fn law_stored_gpu_readings(snap: Snapshot, j: int)
    requires
        0 <= j < snap.gpus@.len(),
    ensures
        ({
            let g = snap.gpus@[j];
            let l = stored_gpu_labels(snap, g);
            let t = snap.timestamp.spec_millis();
            let rows = snapshot_rows(snap);
            &&& rows.contains(("dgmon_gpu_utilization"@, l, t, SampleValue::Count(g.utilization_gpu as u64)))
            &&& rows.contains(
                ("dgmon_gpu_mem_utilization"@, l, t, SampleValue::Count(g.utilization_memory as u64)),
            )
            &&& rows.contains(("dgmon_gpu_temp_c"@, l, t, SampleValue::Count(g.temperature_c as u64)))
            &&& (g.power_w matches Some(p) ==> rows.contains(
                ("dgmon_gpu_power_w"@, l, t, SampleValue::Single(p)),
            ))
            &&& (g.power_limit_w matches Some(p) ==> rows.contains(
                ("dgmon_gpu_power_limit_w"@, l, t, SampleValue::Single(p)),
            ))
            &&& (g.memory_used_mb matches Some(v) ==> rows.contains(
                ("dgmon_gpu_memory_used_mb"@, l, t, SampleValue::Count(v)),
            ))
            &&& (g.memory_total_mb matches Some(v) ==> rows.contains(
                ("dgmon_gpu_memory_total_mb"@, l, t, SampleValue::Count(v)),
            ))
            &&& (g.fan_speed_pct matches Some(v) ==> rows.contains(
                ("dgmon_gpu_fan_speed_pct"@, l, t, SampleValue::Count(v as u64)),
            ))
            &&& (g.sm_clock_mhz matches Some(v) ==> rows.contains(
                ("dgmon_gpu_sm_clock_mhz"@, l, t, SampleValue::Count(v as u64)),
            ))
            &&& (g.mem_clock_mhz matches Some(v) ==> rows.contains(
                ("dgmon_gpu_mem_clock_mhz"@, l, t, SampleValue::Count(v as u64)),
            ))
            &&& (g.sm_clock_max_mhz matches Some(v) ==> rows.contains(
                ("dgmon_gpu_sm_clock_max_mhz"@, l, t, SampleValue::Count(v as u64)),
            ))
            &&& (g.mem_clock_max_mhz matches Some(v) ==> rows.contains(
                ("dgmon_gpu_mem_clock_max_mhz"@, l, t, SampleValue::Count(v as u64)),
            ))
            &&& (g.mem_temp_c matches Some(v) ==> rows.contains(
                ("dgmon_gpu_mem_temp_c"@, l, t, SampleValue::Count(v as u64)),
            ))
            &&& (g.pcie_link_gen matches Some(v) ==> rows.contains(
                ("dgmon_gpu_pcie_link_gen"@, l, t, SampleValue::Count(v as u64)),
            ))
            &&& (g.pcie_link_gen_max matches Some(v) ==> rows.contains(
                ("dgmon_gpu_pcie_link_gen_max"@, l, t, SampleValue::Count(v as u64)),
            ))
            &&& (g.pcie_link_width matches Some(v) ==> rows.contains(
                ("dgmon_gpu_pcie_link_width"@, l, t, SampleValue::Count(v as u64)),
            ))
            &&& (g.pcie_link_width_max matches Some(v) ==> rows.contains(
                ("dgmon_gpu_pcie_link_width_max"@, l, t, SampleValue::Count(v as u64)),
            ))
        }),
{
    let g = snap.gpus@[j];
    lemma_stored_fixed(snap, j);
    let o = gpu_optional(g);
    if let Some(p) = g.power_w {
        assert(o[0] == ("dgmon_gpu_power_w"@, Some(SampleValue::Single(p))));
        lemma_stored_optional(snap, j, 0, SampleValue::Single(p));
    }
    if let Some(p) = g.power_limit_w {
        assert(o[1] == ("dgmon_gpu_power_limit_w"@, Some(SampleValue::Single(p))));
        lemma_stored_optional(snap, j, 1, SampleValue::Single(p));
    }
    if let Some(v) = g.memory_used_mb {
        assert(o[2] == ("dgmon_gpu_memory_used_mb"@, Some(SampleValue::Count(v))));
        lemma_stored_optional(snap, j, 2, SampleValue::Count(v));
    }
    if let Some(v) = g.memory_total_mb {
        assert(o[3] == ("dgmon_gpu_memory_total_mb"@, Some(SampleValue::Count(v))));
        lemma_stored_optional(snap, j, 3, SampleValue::Count(v));
    }
    if let Some(v) = g.fan_speed_pct {
        assert(o[4] == ("dgmon_gpu_fan_speed_pct"@, Some(SampleValue::Count(v as u64))));
        lemma_stored_optional(snap, j, 4, SampleValue::Count(v as u64));
    }
    if let Some(v) = g.sm_clock_mhz {
        assert(o[5] == ("dgmon_gpu_sm_clock_mhz"@, Some(SampleValue::Count(v as u64))));
        lemma_stored_optional(snap, j, 5, SampleValue::Count(v as u64));
    }
    if let Some(v) = g.mem_clock_mhz {
        assert(o[6] == ("dgmon_gpu_mem_clock_mhz"@, Some(SampleValue::Count(v as u64))));
        lemma_stored_optional(snap, j, 6, SampleValue::Count(v as u64));
    }
    if let Some(v) = g.sm_clock_max_mhz {
        assert(o[7] == ("dgmon_gpu_sm_clock_max_mhz"@, Some(SampleValue::Count(v as u64))));
        lemma_stored_optional(snap, j, 7, SampleValue::Count(v as u64));
    }
    if let Some(v) = g.mem_clock_max_mhz {
        assert(o[8] == ("dgmon_gpu_mem_clock_max_mhz"@, Some(SampleValue::Count(v as u64))));
        lemma_stored_optional(snap, j, 8, SampleValue::Count(v as u64));
    }
    if let Some(v) = g.mem_temp_c {
        assert(o[9] == ("dgmon_gpu_mem_temp_c"@, Some(SampleValue::Count(v as u64))));
        lemma_stored_optional(snap, j, 9, SampleValue::Count(v as u64));
    }
    if let Some(v) = g.pcie_link_gen {
        assert(o[10] == ("dgmon_gpu_pcie_link_gen"@, Some(SampleValue::Count(v as u64))));
        lemma_stored_optional(snap, j, 10, SampleValue::Count(v as u64));
    }
    if let Some(v) = g.pcie_link_gen_max {
        assert(o[11] == ("dgmon_gpu_pcie_link_gen_max"@, Some(SampleValue::Count(v as u64))));
        lemma_stored_optional(snap, j, 11, SampleValue::Count(v as u64));
    }
    if let Some(v) = g.pcie_link_width {
        assert(o[12] == ("dgmon_gpu_pcie_link_width"@, Some(SampleValue::Count(v as u64))));
        lemma_stored_optional(snap, j, 12, SampleValue::Count(v as u64));
    }
    if let Some(v) = g.pcie_link_width_max {
        assert(o[13] == ("dgmon_gpu_pcie_link_width_max"@, Some(SampleValue::Count(v as u64))));
        lemma_stored_optional(snap, j, 13, SampleValue::Count(v as u64));
    }
}

proof fn lemma_snapshot_rows_parts(snap: Snapshot, r: RowView)
    requires
        host_rows(snap, snap.timestamp.spec_millis()).contains(r) || (exists|k: int|
            0 <= k < snap.host.cpu_cores@.len() && #[trigger] core_rows(
                base_labels(snap),
                snap.timestamp.spec_millis(),
                snap.host.cpu_cores@[k],
            ).contains(r)) || (exists|k: int|
            0 <= k < snap.host.networks@.len() && #[trigger] net_rows(
                base_labels(snap),
                snap.timestamp.spec_millis(),
                snap.host.networks@[k],
            ).contains(r)),
    ensures
        snapshot_rows(snap).contains(r),
{
    let b = base_labels(snap);
    let ts = snap.timestamp.spec_millis();
    let hr = host_rows(snap, ts);
    let cs = snap.host.cpu_cores@.map_values(|c: crate::collector::CpuCoreSample| core_rows(b, ts, c));
    let ns = snap.host.networks@.map_values(|n: crate::collector::NetSample| net_rows(b, ts, n));
    let gs = snap.gpus@.map_values(|g: crate::collector::GpuSample| gpu_rows(b, ts, g));
    let is = snap.inference@.map_values(
        |x: crate::collector::InferenceSample| inference_rows(b, ts, x),
    );
    if !hr.contains(r) {
        if exists|k: int| 0 <= k < snap.host.cpu_cores@.len() && #[trigger] core_rows(b, ts, snap.host.cpu_cores@[k]).contains(r) {
            let k = choose|k: int| 0 <= k < snap.host.cpu_cores@.len() && #[trigger] core_rows(b, ts, snap.host.cpu_cores@[k]).contains(r);
            assert(cs[k] == core_rows(b, ts, snap.host.cpu_cores@[k]));
            lemma_flatten_contains(cs, k, r);
        } else {
            let k = choose|k: int| 0 <= k < snap.host.networks@.len() && #[trigger] net_rows(b, ts, snap.host.networks@[k]).contains(r);
            assert(ns[k] == net_rows(b, ts, snap.host.networks@[k]));
            lemma_flatten_contains(ns, k, r);
        }
    }
    if hr.contains(r) || cs.flatten().contains(r) {
        lemma_concat_contains(hr, cs.flatten(), r);
    }
    lemma_concat_contains(hr + cs.flatten(), ns.flatten(), r);
    lemma_concat_contains(hr + cs.flatten() + ns.flatten(), gs.flatten(), r);
    lemma_concat_contains(hr + cs.flatten() + ns.flatten() + gs.flatten(), is.flatten(), r);
    assert(snapshot_rows(snap) == hr + cs.flatten() + ns.flatten() + gs.flatten() + is.flatten());
}

/// Every host-wide reading is stored under the metric that names it, with
/// the snapshot's labels and time.
pub proof fn law_stored_host_readings(snap: Snapshot)
    ensures
        ({
            let h = snap.host;
            let l = base_labels(snap);
            let t = snap.timestamp.spec_millis();
            let rows = snapshot_rows(snap);
            &&& rows.contains(("dgmon_cpu_usage_pct"@, l, t, SampleValue::Single(h.cpu_usage_pct)))
            &&& rows.contains(("dgmon_memory_used_mb"@, l, t, SampleValue::Count(h.memory_used_mb)))
            &&& rows.contains(("dgmon_memory_total_mb"@, l, t, SampleValue::Count(h.memory_total_mb)))
            &&& rows.contains(("dgmon_uptime_seconds"@, l, t, SampleValue::Count(h.uptime_seconds)))
            &&& rows.contains(("dgmon_disk_used_gb"@, l, t, SampleValue::Double(h.disk_used_gb)))
            &&& rows.contains(("dgmon_disk_total_gb"@, l, t, SampleValue::Double(h.disk_total_gb)))
            &&& rows.contains(("dgmon_network_rx_bytes"@, l, t, SampleValue::Count(h.network_rx_bytes)))
            &&& rows.contains(("dgmon_network_tx_bytes"@, l, t, SampleValue::Count(h.network_tx_bytes)))
        }),
{
    let hr = host_rows(snap, snap.timestamp.spec_millis());
    assert(hr[0].0 == "dgmon_cpu_usage_pct"@);
    lemma_snapshot_rows_parts(snap, hr[0]);
    assert(hr[1].0 == "dgmon_memory_used_mb"@);
    lemma_snapshot_rows_parts(snap, hr[1]);
    assert(hr[2].0 == "dgmon_memory_total_mb"@);
    lemma_snapshot_rows_parts(snap, hr[2]);
    assert(hr[3].0 == "dgmon_uptime_seconds"@);
    lemma_snapshot_rows_parts(snap, hr[3]);
    assert(hr[4].0 == "dgmon_disk_used_gb"@);
    lemma_snapshot_rows_parts(snap, hr[4]);
    assert(hr[5].0 == "dgmon_disk_total_gb"@);
    lemma_snapshot_rows_parts(snap, hr[5]);
    assert(hr[6].0 == "dgmon_network_rx_bytes"@);
    lemma_snapshot_rows_parts(snap, hr[6]);
    assert(hr[7].0 == "dgmon_network_tx_bytes"@);
    lemma_snapshot_rows_parts(snap, hr[7]);
}

/// The labels of the stored rows of interface `n` of `snap`: the
/// snapshot's labels, then `interface` and `role`.
pub open spec fn stored_net_labels(snap: Snapshot, n: crate::collector::NetSample) -> LabelsView {
    base_labels(snap).push(("interface"@, n.interface@)).push(("role"@, n.role@))
}

/// Every reading of a network interface is stored under the metric that
/// names it, with the interface's labels and the snapshot's time (the link
/// speed only when known); the link state reads 1 when up and 0 when down.
pub proof fn law_stored_net_readings(snap: Snapshot, j: int)
    requires
        0 <= j < snap.host.networks@.len(),
    ensures
        ({
            let n = snap.host.networks@[j];
            let l = stored_net_labels(snap, n);
            let t = snap.timestamp.spec_millis();
            let rows = snapshot_rows(snap);
            &&& rows.contains(("dgmon_net_rx_bytes"@, l, t, SampleValue::Count(n.rx_bytes)))
            &&& rows.contains(("dgmon_net_tx_bytes"@, l, t, SampleValue::Count(n.tx_bytes)))
            &&& rows.contains(("dgmon_net_rx_packets"@, l, t, SampleValue::Count(n.rx_packets)))
            &&& rows.contains(("dgmon_net_tx_packets"@, l, t, SampleValue::Count(n.tx_packets)))
            &&& (n.speed_mbps matches Some(v) ==> rows.contains(("dgmon_net_speed_mbps"@, l, t, SampleValue::Count(v))))
            &&& rows.contains(("dgmon_net_up"@, l, t, SampleValue::Count(if n.up { 1 } else { 0 })))
        }),
{
    let n = snap.host.networks@[j];
    let b = base_labels(snap);
    let ts = snap.timestamp.spec_millis();
    let l = b.push(("interface"@, n.interface@)).push(("role"@, n.role@));
    let four = seq![
        ("dgmon_net_rx_bytes"@, l, ts, SampleValue::Count(n.rx_bytes)),
        ("dgmon_net_tx_bytes"@, l, ts, SampleValue::Count(n.tx_bytes)),
        ("dgmon_net_rx_packets"@, l, ts, SampleValue::Count(n.rx_packets)),
        ("dgmon_net_tx_packets"@, l, ts, SampleValue::Count(n.tx_packets)),
    ];
    let sp = opt_row("dgmon_net_speed_mbps"@, l, ts, crate::storage::count64(n.speed_mbps));
    let up = seq![("dgmon_net_up"@, l, ts, SampleValue::Count(if n.up { 1 } else { 0 }))];
    let rs = net_rows(b, ts, n);
    assert(rs == four + sp + up);
    assert forall|r: RowView| four.contains(r) || sp.contains(r) || up.contains(r) implies #[trigger] snapshot_rows(
        snap,
    ).contains(r) by {
        if four.contains(r) || sp.contains(r) {
            lemma_concat_contains(four, sp, r);
        }
        lemma_concat_contains(four + sp, up, r);
        lemma_snapshot_rows_parts(snap, r);
    }
    assert(four.contains(four[0]));
    assert(four.contains(four[1]));
    assert(four.contains(four[2]));
    assert(four.contains(four[3]));
    if let Some(v) = n.speed_mbps {
        assert(sp.contains(sp[0]));
    }
    assert(up.contains(up[0]));
}

/// The reading of each CPU core is stored under `dgmon_cpu_core_usage_pct`
/// with the snapshot's labels, then the core's number.
pub proof fn law_stored_core_readings(snap: Snapshot, j: int)
    requires
        0 <= j < snap.host.cpu_cores@.len(),
    ensures
        snapshot_rows(snap).contains(
            (
                "dgmon_cpu_core_usage_pct"@,
                base_labels(snap).push(("core"@, decimal(snap.host.cpu_cores@[j].index as nat))),
                snap.timestamp.spec_millis(),
                SampleValue::Single(snap.host.cpu_cores@[j].usage_pct),
            ),
        ),
{
    let c = snap.host.cpu_cores@[j];
    let rs = core_rows(base_labels(snap), snap.timestamp.spec_millis(), c);
    assert(rs.contains(rs[0]));
    lemma_snapshot_rows_parts(snap, rs[0]);
}

// ---------------------------------------------------------------------
// The exposition.
// ---------------------------------------------------------------------
/// The labels of the exposition lines of GPU `g` of `snap`:
/// `hostname="..",gpu="..",uuid="..",model=".."` and the extra labels.
pub open spec fn exposed_gpu_labels(snap: Snapshot, g: GpuSample) -> Seq<char> {
    label_text("hostname"@, snap.host.hostname@) + ","@ + label_text("gpu"@, decimal(g.index as nat))
        + ","@ + label_text("uuid"@, g.uuid@) + ","@ + label_text("model"@, g.name@) + extra_text(
        crate::storage::pair_views(snap.extra@),
    )
}

/// The sample line `name{labels} n` of an integer reading.
pub open spec fn int_line(name: Seq<char>, labels: Seq<char>, n: nat) -> PieceView {
    (name + "{"@ + labels + "} "@ + decimal(n), ValueSlot::NoValue)
}

/// The sample line `name{labels} ` followed by a measured reading.
pub open spec fn reading_line(name: Seq<char>, labels: Seq<char>, slot: ValueSlot) -> PieceView {
    (name + "{"@ + labels + "} "@, slot)
}

proof fn lemma_entry_line(l: Seq<char>, es: Seq<EntryView>, x: EntryView)
    requires
        es.contains(x),
    ensures
        entries_lines(l, es).contains((x.0 + "{"@ + l + "} "@ + x.2, x.3)),
{
    let m = choose|m: int| 0 <= m < es.len() && es[m] == x;
    let ss = es.map_values(|e: EntryView| entry_lines(l, e));
    assert(ss[m] == entry_lines(l, x));
    assert(ss[m][1] == (x.0 + "{"@ + l + "} "@ + x.2, x.3));
    lemma_flatten_contains(ss, m, (x.0 + "{"@ + l + "} "@ + x.2, x.3));
}

proof fn lemma_exposed_entry(snaps: Seq<Snapshot>, i: int, j: int, x: EntryView)
    requires
        0 <= i < snaps.len(),
        0 <= j < snaps[i].gpus@.len(),
        gpu_entries(snaps[i].gpus@[j]).contains(x),
    ensures
        exposition(snaps).contains(
            (x.0 + "{"@ + exposed_gpu_labels(snaps[i], snaps[i].gpus@[j]) + "} "@ + x.2, x.3),
        ),
{
    let s = snaps[i];
    let g = s.gpus@[j];
    let l = line_labels(s, g);
    assert(l == exposed_gpu_labels(s, g));
    let line = (x.0 + "{"@ + l + "} "@ + x.2, x.3);
    lemma_entry_line(l, gpu_entries(g), x);
    let gs = s.gpus@.map_values(|h: GpuSample| entries_lines(line_labels(s, h), gpu_entries(h)));
    assert(gs[j] == entries_lines(l, gpu_entries(g)));
    lemma_flatten_contains(gs, j, line);
    assert(gpus_lines(s) == gs.flatten());
    let a = entries_lines(host_labels(s), host_entries(s)) + cores_lines(s) + nets_lines(s);
    lemma_concat_contains(a, gpus_lines(s), line);
    lemma_concat_contains(a + gpus_lines(s), inferences_lines(s), line);
    assert(snapshot_exposition(s) == a + gpus_lines(s) + inferences_lines(s));
    let ss = snaps.map_values(|t: Snapshot| snapshot_exposition(t));
    assert(ss[i] == snapshot_exposition(s));
    lemma_flatten_contains(ss, i, line);
}

proof fn lemma_entries_parts(g: GpuSample, x: EntryView)
    requires
        gpu_base_entries(g).contains(x) || crate::http::gpu_optional_entries(g).contains(x)
            || gpu_throttle_entries(g).contains(x),
    ensures
        gpu_entries(g).contains(x),
{
    let b = gpu_base_entries(g);
    let o = crate::http::gpu_optional_entries(g);
    let t = gpu_throttle_entries(g);
    if b.contains(x) || o.contains(x) {
        lemma_concat_contains(b, o, x);
    }
    lemma_concat_contains(b + o, t, x);
}

proof fn lemma_fixed_lines(snaps: Seq<Snapshot>, i: int, j: int)
    requires
        0 <= i < snaps.len(),
        0 <= j < snaps[i].gpus@.len(),
    ensures
        ({
            let s = snaps[i];
            let g = s.gpus@[j];
            let l = exposed_gpu_labels(s, g);
            let e = exposition(snaps);
            &&& e.contains(int_line("dgmon_gpu_utilization"@, l, g.utilization_gpu as nat))
            &&& e.contains(int_line("dgmon_gpu_mem_utilization"@, l, g.utilization_memory as nat))
            &&& e.contains(int_line("dgmon_gpu_temp_c"@, l, g.temperature_c as nat))
            &&& (g.power_w matches Some(p) ==> e.contains(reading_line("dgmon_gpu_power_w"@, l, ValueSlot::Fixed1(p))))
            &&& (g.power_limit_w matches Some(p) ==> e.contains(reading_line("dgmon_gpu_power_limit_w"@, l, ValueSlot::Fixed1(p))))
        }),
{
    let s = snaps[i];
    let g = s.gpus@[j];
    let b = gpu_base_entries(g);
    let three = seq![
        int_entry("dgmon_gpu_utilization"@, "GPU utilization percentage"@, g.utilization_gpu as nat),
        int_entry("dgmon_gpu_mem_utilization"@, "GPU memory utilization percentage"@, g.utilization_memory as nat),
        int_entry("dgmon_gpu_temp_c"@, "GPU temperature in Celsius"@, g.temperature_c as nat),
    ];
    let pw = opt_power_entry("dgmon_gpu_power_w"@, "GPU power draw in watts"@, g.power_w);
    let pl = opt_power_entry("dgmon_gpu_power_limit_w"@, "GPU power limit in watts"@, g.power_limit_w);
    assert(b == three + pw + pl);
    assert forall|k: int| 0 <= k < 3 implies #[trigger] b.contains(three[k]) by {
        lemma_concat_contains(three, pw, three[k]);
        lemma_concat_contains(three + pw, pl, three[k]);
    }
    assert forall|k: int| 0 <= k < 3 implies exposition(snaps).contains(
        (three[k].0 + "{"@ + exposed_gpu_labels(s, g) + "} "@ + three[k].2, three[k].3),
    ) by {
        assert(b.contains(three[k]));
        lemma_entries_parts(g, three[k]);
        lemma_exposed_entry(snaps, i, j, three[k]);
    }
    assert(three[0] == int_entry("dgmon_gpu_utilization"@, "GPU utilization percentage"@, g.utilization_gpu as nat));
    assert(three[1] == int_entry("dgmon_gpu_mem_utilization"@, "GPU memory utilization percentage"@, g.utilization_memory as nat));
    assert(three[2] == int_entry("dgmon_gpu_temp_c"@, "GPU temperature in Celsius"@, g.temperature_c as nat));
    let l = exposed_gpu_labels(s, g);
    if let Some(p) = g.power_w {
        let x = slot_entry("dgmon_gpu_power_w"@, "GPU power draw in watts"@, ValueSlot::Fixed1(p));
        assert(pw[0] == x);
        lemma_concat_contains(three, pw, x);
        lemma_concat_contains(three + pw, pl, x);
        lemma_entries_parts(g, x);
        lemma_exposed_entry(snaps, i, j, x);
        assert(x.0 + "{"@ + l + "} "@ + x.2 =~= "dgmon_gpu_power_w"@ + "{"@ + l + "} "@);
    }
    if let Some(p) = g.power_limit_w {
        let x = slot_entry("dgmon_gpu_power_limit_w"@, "GPU power limit in watts"@, ValueSlot::Fixed1(p));
        assert(pl[0] == x);
        lemma_concat_contains(three + pw, pl, x);
        lemma_entries_parts(g, x);
        lemma_exposed_entry(snaps, i, j, x);
        assert(x.0 + "{"@ + l + "} "@ + x.2 =~= "dgmon_gpu_power_limit_w"@ + "{"@ + l + "} "@);
    }
}

proof fn lemma_optional_line(snaps: Seq<Snapshot>, i: int, j: int, m: int, v: u64)
    requires
        0 <= i < snaps.len(),
        0 <= j < snaps[i].gpus@.len(),
        0 <= m < gpu_optional_ints(snaps[i].gpus@[j]).len(),
        gpu_optional_ints(snaps[i].gpus@[j])[m].2 == Some(v),
    ensures
        exposition(snaps).contains(
            int_line(
                gpu_optional_ints(snaps[i].gpus@[j])[m].0,
                exposed_gpu_labels(snaps[i], snaps[i].gpus@[j]),
                v as nat,
            ),
        ),
{
    let g = snaps[i].gpus@[j];
    let y = gpu_optional_ints(g)[m];
    let x = int_entry(y.0, y.1, v as nat);
    let ss = gpu_optional_ints(g).map_values(
        |z: (Seq<char>, Seq<char>, Option<u64>)| opt_int_entry(z.0, z.1, z.2),
    );
    assert(ss[m] == opt_int_entry(y.0, y.1, y.2));
    assert(ss[m][0] == x);
    lemma_flatten_contains(ss, m, x);
    lemma_entries_parts(g, x);
    lemma_exposed_entry(snaps, i, j, x);
}

proof fn lemma_optional_lines(snaps: Seq<Snapshot>, i: int, j: int)
    requires
        0 <= i < snaps.len(),
        0 <= j < snaps[i].gpus@.len(),
    ensures
        ({
            let s = snaps[i];
            let g = s.gpus@[j];
            let l = exposed_gpu_labels(s, g);
            let e = exposition(snaps);
            &&& (g.memory_used_mb matches Some(v) ==> e.contains(int_line("dgmon_gpu_memory_used_mb"@, l, v as nat)))
            &&& (g.memory_total_mb matches Some(v) ==> e.contains(int_line("dgmon_gpu_memory_total_mb"@, l, v as nat)))
            &&& (g.fan_speed_pct matches Some(v) ==> e.contains(int_line("dgmon_gpu_fan_speed_pct"@, l, v as nat)))
            &&& (g.sm_clock_mhz matches Some(v) ==> e.contains(int_line("dgmon_gpu_sm_clock_mhz"@, l, v as nat)))
            &&& (g.mem_clock_mhz matches Some(v) ==> e.contains(int_line("dgmon_gpu_mem_clock_mhz"@, l, v as nat)))
            &&& (g.sm_clock_max_mhz matches Some(v) ==> e.contains(int_line("dgmon_gpu_sm_clock_max_mhz"@, l, v as nat)))
            &&& (g.mem_clock_max_mhz matches Some(v) ==> e.contains(int_line("dgmon_gpu_mem_clock_max_mhz"@, l, v as nat)))
            &&& (g.mem_temp_c matches Some(v) ==> e.contains(int_line("dgmon_gpu_mem_temp_c"@, l, v as nat)))
            &&& (g.pcie_link_gen matches Some(v) ==> e.contains(int_line("dgmon_gpu_pcie_link_gen"@, l, v as nat)))
            &&& (g.pcie_link_gen_max matches Some(v) ==> e.contains(int_line("dgmon_gpu_pcie_link_gen_max"@, l, v as nat)))
            &&& (g.pcie_link_width matches Some(v) ==> e.contains(int_line("dgmon_gpu_pcie_link_width"@, l, v as nat)))
            &&& (g.pcie_link_width_max matches Some(v) ==> e.contains(int_line("dgmon_gpu_pcie_link_width_max"@, l, v as nat)))
        }),
{
    let g = snaps[i].gpus@[j];
    let o = gpu_optional_ints(g);
    if let Some(v) = g.memory_used_mb {
        assert(o[0].0 == "dgmon_gpu_memory_used_mb"@ && o[0].2 == Some(v));
        lemma_optional_line(snaps, i, j, 0, v);
    }
    if let Some(v) = g.memory_total_mb {
        assert(o[1].0 == "dgmon_gpu_memory_total_mb"@ && o[1].2 == Some(v));
        lemma_optional_line(snaps, i, j, 1, v);
    }
    if let Some(v) = g.fan_speed_pct {
        assert(o[2].0 == "dgmon_gpu_fan_speed_pct"@ && o[2].2 == Some(v as u64));
        lemma_optional_line(snaps, i, j, 2, v as u64);
    }
    if let Some(v) = g.sm_clock_mhz {
        assert(o[3].0 == "dgmon_gpu_sm_clock_mhz"@ && o[3].2 == Some(v as u64));
        lemma_optional_line(snaps, i, j, 3, v as u64);
    }
    if let Some(v) = g.mem_clock_mhz {
        assert(o[4].0 == "dgmon_gpu_mem_clock_mhz"@ && o[4].2 == Some(v as u64));
        lemma_optional_line(snaps, i, j, 4, v as u64);
    }
    if let Some(v) = g.sm_clock_max_mhz {
        assert(o[5].0 == "dgmon_gpu_sm_clock_max_mhz"@ && o[5].2 == Some(v as u64));
        lemma_optional_line(snaps, i, j, 5, v as u64);
    }
    if let Some(v) = g.mem_clock_max_mhz {
        assert(o[6].0 == "dgmon_gpu_mem_clock_max_mhz"@ && o[6].2 == Some(v as u64));
        lemma_optional_line(snaps, i, j, 6, v as u64);
    }
    if let Some(v) = g.mem_temp_c {
        assert(o[7].0 == "dgmon_gpu_mem_temp_c"@ && o[7].2 == Some(v as u64));
        lemma_optional_line(snaps, i, j, 7, v as u64);
    }
    if let Some(v) = g.pcie_link_gen {
        assert(o[8].0 == "dgmon_gpu_pcie_link_gen"@ && o[8].2 == Some(v as u64));
        lemma_optional_line(snaps, i, j, 8, v as u64);
    }
    if let Some(v) = g.pcie_link_gen_max {
        assert(o[9].0 == "dgmon_gpu_pcie_link_gen_max"@ && o[9].2 == Some(v as u64));
        lemma_optional_line(snaps, i, j, 9, v as u64);
    }
    if let Some(v) = g.pcie_link_width {
        assert(o[10].0 == "dgmon_gpu_pcie_link_width"@ && o[10].2 == Some(v as u64));
        lemma_optional_line(snaps, i, j, 10, v as u64);
    }
    if let Some(v) = g.pcie_link_width_max {
        assert(o[11].0 == "dgmon_gpu_pcie_link_width_max"@ && o[11].2 == Some(v as u64));
        lemma_optional_line(snaps, i, j, 11, v as u64);
    }
}

proof fn lemma_throttle_line(snaps: Seq<Snapshot>, i: int, j: int, k: int)
    requires
        0 <= i < snaps.len(),
        0 <= j < snaps[i].gpus@.len(),
        0 <= k < gpu_throttle_entries(snaps[i].gpus@[j]).len(),
    ensures
        ({
            let g = snaps[i].gpus@[j];
            let x = gpu_throttle_entries(g)[k];
            exposition(snaps).contains((x.0 + "{"@ + exposed_gpu_labels(snaps[i], g) + "} "@ + x.2, x.3))
        }),
{
    let g = snaps[i].gpus@[j];
    let t = gpu_throttle_entries(g);
    assert(t.contains(t[k]));
    lemma_entries_parts(g, t[k]);
    lemma_exposed_entry(snaps, i, j, t[k]);
}

proof fn lemma_throttle_lines(snaps: Seq<Snapshot>, i: int, j: int)
    requires
        0 <= i < snaps.len(),
        0 <= j < snaps[i].gpus@.len(),
    ensures
        ({
            let s = snaps[i];
            let g = s.gpus@[j];
            let l = exposed_gpu_labels(s, g);
            let e = exposition(snaps);
            &&& e.contains(int_line("dgmon_gpu_throttle_active"@, l, g.throttle_active as nat))
            &&& e.contains(int_line("dgmon_gpu_throttle_hw_thermal"@, l, if g.throttle_hw_thermal { 1 } else { 0 }))
            &&& e.contains(int_line("dgmon_gpu_throttle_sw_thermal"@, l, if g.throttle_sw_thermal { 1 } else { 0 }))
            &&& e.contains(int_line("dgmon_gpu_throttle_hw_slowdown"@, l, if g.throttle_hw_slowdown { 1 } else { 0 }))
            &&& e.contains(int_line("dgmon_gpu_throttle_power_brake"@, l, if g.throttle_power_brake { 1 } else { 0 }))
        }),
{
    let g = snaps[i].gpus@[j];
    let t = gpu_throttle_entries(g);
    assert(t[0].0 == "dgmon_gpu_throttle_active"@);
    assert(t[1].0 == "dgmon_gpu_throttle_hw_thermal"@);
    assert(t[2].0 == "dgmon_gpu_throttle_sw_thermal"@);
    assert(t[3].0 == "dgmon_gpu_throttle_hw_slowdown"@);
    assert(t[4].0 == "dgmon_gpu_throttle_power_brake"@);
    lemma_throttle_line(snaps, i, j, 0);
    lemma_throttle_line(snaps, i, j, 1);
    lemma_throttle_line(snaps, i, j, 2);
    lemma_throttle_line(snaps, i, j, 3);
    lemma_throttle_line(snaps, i, j, 4);
}

/// Every reading of a GPU appears in the exposition on the sample line of
/// the metric that names it, under the GPU's labels (optional readings only
/// when present); a flag reads 1 when set and 0 when not.
pub proof fn law_exposed_gpu_readings(snaps: Seq<Snapshot>, i: int, j: int)
    requires
        0 <= i < snaps.len(),
        0 <= j < snaps[i].gpus@.len(),
    ensures
        ({
            let s = snaps[i];
            let g = s.gpus@[j];
            let l = exposed_gpu_labels(s, g);
            let e = exposition(snaps);
            &&& e.contains(int_line("dgmon_gpu_utilization"@, l, g.utilization_gpu as nat))
            &&& e.contains(int_line("dgmon_gpu_mem_utilization"@, l, g.utilization_memory as nat))
            &&& e.contains(int_line("dgmon_gpu_temp_c"@, l, g.temperature_c as nat))
            &&& (g.power_w matches Some(p) ==> e.contains(reading_line("dgmon_gpu_power_w"@, l, ValueSlot::Fixed1(p))))
            &&& (g.power_limit_w matches Some(p) ==> e.contains(reading_line("dgmon_gpu_power_limit_w"@, l, ValueSlot::Fixed1(p))))
            &&& (g.memory_used_mb matches Some(v) ==> e.contains(int_line("dgmon_gpu_memory_used_mb"@, l, v as nat)))
            &&& (g.memory_total_mb matches Some(v) ==> e.contains(int_line("dgmon_gpu_memory_total_mb"@, l, v as nat)))
            &&& (g.fan_speed_pct matches Some(v) ==> e.contains(int_line("dgmon_gpu_fan_speed_pct"@, l, v as nat)))
            &&& (g.sm_clock_mhz matches Some(v) ==> e.contains(int_line("dgmon_gpu_sm_clock_mhz"@, l, v as nat)))
            &&& (g.mem_clock_mhz matches Some(v) ==> e.contains(int_line("dgmon_gpu_mem_clock_mhz"@, l, v as nat)))
            &&& (g.sm_clock_max_mhz matches Some(v) ==> e.contains(int_line("dgmon_gpu_sm_clock_max_mhz"@, l, v as nat)))
            &&& (g.mem_clock_max_mhz matches Some(v) ==> e.contains(int_line("dgmon_gpu_mem_clock_max_mhz"@, l, v as nat)))
            &&& (g.mem_temp_c matches Some(v) ==> e.contains(int_line("dgmon_gpu_mem_temp_c"@, l, v as nat)))
            &&& (g.pcie_link_gen matches Some(v) ==> e.contains(int_line("dgmon_gpu_pcie_link_gen"@, l, v as nat)))
            &&& (g.pcie_link_gen_max matches Some(v) ==> e.contains(int_line("dgmon_gpu_pcie_link_gen_max"@, l, v as nat)))
            &&& (g.pcie_link_width matches Some(v) ==> e.contains(int_line("dgmon_gpu_pcie_link_width"@, l, v as nat)))
            &&& (g.pcie_link_width_max matches Some(v) ==> e.contains(int_line("dgmon_gpu_pcie_link_width_max"@, l, v as nat)))
            &&& e.contains(int_line("dgmon_gpu_throttle_active"@, l, g.throttle_active as nat))
            &&& e.contains(int_line("dgmon_gpu_throttle_hw_thermal"@, l, if g.throttle_hw_thermal { 1 } else { 0 }))
            &&& e.contains(int_line("dgmon_gpu_throttle_sw_thermal"@, l, if g.throttle_sw_thermal { 1 } else { 0 }))
            &&& e.contains(int_line("dgmon_gpu_throttle_hw_slowdown"@, l, if g.throttle_hw_slowdown { 1 } else { 0 }))
            &&& e.contains(int_line("dgmon_gpu_throttle_power_brake"@, l, if g.throttle_power_brake { 1 } else { 0 }))
        }),
{
    lemma_fixed_lines(snaps, i, j);
    lemma_optional_lines(snaps, i, j);
    lemma_throttle_lines(snaps, i, j);
}

proof fn lemma_in_exposition(snaps: Seq<Snapshot>, i: int, x: PieceView)
    requires
        0 <= i < snaps.len(),
        snapshot_exposition(snaps[i]).contains(x),
    ensures
        exposition(snaps).contains(x),
{
    let ss = snaps.map_values(|t: Snapshot| snapshot_exposition(t));
    assert(ss[i] == snapshot_exposition(snaps[i]));
    lemma_flatten_contains(ss, i, x);
}

/// The sample line of entry `x` under `labels`.
spec fn line_of(labels: Seq<char>, x: EntryView) -> PieceView {
    (x.0 + "{"@ + labels + "} "@ + x.2, x.3)
}

proof fn lemma_host_part(snaps: Seq<Snapshot>, i: int, x: EntryView)
    requires
        0 <= i < snaps.len(),
        host_entries(snaps[i]).contains(x),
    ensures
        exposition(snaps).contains(line_of(host_labels(snaps[i]), x)),
{
    let s = snaps[i];
    let line = line_of(host_labels(s), x);
    lemma_entry_line(host_labels(s), host_entries(s), x);
    let a = entries_lines(host_labels(s), host_entries(s));
    lemma_concat_contains(a, cores_lines(s), line);
    lemma_concat_contains(a + cores_lines(s), nets_lines(s), line);
    lemma_concat_contains(a + cores_lines(s) + nets_lines(s), gpus_lines(s), line);
    lemma_concat_contains(a + cores_lines(s) + nets_lines(s) + gpus_lines(s), inferences_lines(s), line);
    lemma_in_exposition(snaps, i, line);
}

proof fn lemma_core_part(snaps: Seq<Snapshot>, i: int, j: int, x: EntryView)
    requires
        0 <= i < snaps.len(),
        0 <= j < snaps[i].host.cpu_cores@.len(),
        core_entries(snaps[i].host.cpu_cores@[j]).contains(x),
    ensures
        exposition(snaps).contains(line_of(core_labels(snaps[i], snaps[i].host.cpu_cores@[j]), x)),
{
    let s = snaps[i];
    let c = s.host.cpu_cores@[j];
    let line = line_of(core_labels(s, c), x);
    lemma_entry_line(core_labels(s, c), core_entries(c), x);
    let cs = s.host.cpu_cores@.map_values(
        |d: crate::collector::CpuCoreSample| entries_lines(core_labels(s, d), core_entries(d)),
    );
    assert(cs[j] == entries_lines(core_labels(s, c), core_entries(c)));
    lemma_flatten_contains(cs, j, line);
    let a = entries_lines(host_labels(s), host_entries(s));
    lemma_concat_contains(a, cores_lines(s), line);
    lemma_concat_contains(a + cores_lines(s), nets_lines(s), line);
    lemma_concat_contains(a + cores_lines(s) + nets_lines(s), gpus_lines(s), line);
    lemma_concat_contains(a + cores_lines(s) + nets_lines(s) + gpus_lines(s), inferences_lines(s), line);
    lemma_in_exposition(snaps, i, line);
}

proof fn lemma_net_part(snaps: Seq<Snapshot>, i: int, j: int, x: EntryView)
    requires
        0 <= i < snaps.len(),
        0 <= j < snaps[i].host.networks@.len(),
        net_entries(snaps[i].host.networks@[j]).contains(x),
    ensures
        exposition(snaps).contains(line_of(net_labels(snaps[i], snaps[i].host.networks@[j]), x)),
{
    let s = snaps[i];
    let n = s.host.networks@[j];
    let line = line_of(net_labels(s, n), x);
    lemma_entry_line(net_labels(s, n), net_entries(n), x);
    let ns = s.host.networks@.map_values(
        |d: crate::collector::NetSample| entries_lines(net_labels(s, d), net_entries(d)),
    );
    assert(ns[j] == entries_lines(net_labels(s, n), net_entries(n)));
    lemma_flatten_contains(ns, j, line);
    let a = entries_lines(host_labels(s), host_entries(s)) + cores_lines(s);
    lemma_concat_contains(a, nets_lines(s), line);
    lemma_concat_contains(a + nets_lines(s), gpus_lines(s), line);
    lemma_concat_contains(a + nets_lines(s) + gpus_lines(s), inferences_lines(s), line);
    lemma_in_exposition(snaps, i, line);
}

/// The labels of the host-wide exposition lines of `snap`:
/// `hostname=".."` and the extra labels.
pub open spec fn exposed_host_labels(snap: Snapshot) -> Seq<char> {
    label_text("hostname"@, snap.host.hostname@) + extra_text(crate::storage::pair_views(snap.extra@))
}

/// Every host-wide reading appears in the exposition on the sample line of
/// the metric that names it, under the host's labels.
pub proof fn law_exposed_host_readings(snaps: Seq<Snapshot>, i: int)
    requires
        0 <= i < snaps.len(),
    ensures
        ({
            let h = snaps[i].host;
            let l = exposed_host_labels(snaps[i]);
            let e = exposition(snaps);
            &&& e.contains(reading_line("dgmon_cpu_usage_pct"@, l, ValueSlot::Fixed1(h.cpu_usage_pct)))
            &&& e.contains(int_line("dgmon_memory_used_mb"@, l, h.memory_used_mb as nat))
            &&& e.contains(int_line("dgmon_memory_total_mb"@, l, h.memory_total_mb as nat))
            &&& e.contains(int_line("dgmon_uptime_seconds"@, l, h.uptime_seconds as nat))
            &&& e.contains(reading_line("dgmon_disk_used_gb"@, l, ValueSlot::Fixed2(h.disk_used_gb)))
            &&& e.contains(reading_line("dgmon_disk_total_gb"@, l, ValueSlot::Fixed2(h.disk_total_gb)))
            &&& e.contains(int_line("dgmon_network_rx_bytes"@, l, h.network_rx_bytes as nat))
            &&& e.contains(int_line("dgmon_network_tx_bytes"@, l, h.network_tx_bytes as nat))
        }),
{
    let s = snaps[i];
    let es = host_entries(s);
    let l = host_labels(s);
    assert forall|k: int| 0 <= k < 8 implies exposition(snaps).contains(line_of(l, #[trigger] es[k])) by {
        assert(es.contains(es[k]));
        lemma_host_part(snaps, i, es[k]);
    }
    assert(es[0].0 == "dgmon_cpu_usage_pct"@ && es[0].2 == Seq::<char>::empty());
    assert(es[4].0 == "dgmon_disk_used_gb"@ && es[4].2 == Seq::<char>::empty());
    assert(es[5].0 == "dgmon_disk_total_gb"@ && es[5].2 == Seq::<char>::empty());
    assert(line_of(l, es[0]).0 =~= "dgmon_cpu_usage_pct"@ + "{"@ + l + "} "@);
    assert(line_of(l, es[4]).0 =~= "dgmon_disk_used_gb"@ + "{"@ + l + "} "@);
    assert(line_of(l, es[5]).0 =~= "dgmon_disk_total_gb"@ + "{"@ + l + "} "@);
    assert(es[1].0 == "dgmon_memory_used_mb"@);
    assert(es[2].0 == "dgmon_memory_total_mb"@);
    assert(es[3].0 == "dgmon_uptime_seconds"@);
    assert(es[6].0 == "dgmon_network_rx_bytes"@);
    assert(es[7].0 == "dgmon_network_tx_bytes"@);
}

/// The labels of the exposition lines of interface `n` of `snap`:
/// `hostname="..",interface="..",role=".."` and the extra labels.
pub open spec fn exposed_net_labels(snap: Snapshot, n: crate::collector::NetSample) -> Seq<char> {
    label_text("hostname"@, snap.host.hostname@) + ","@ + label_text("interface"@, n.interface@) + ","@
        + label_text("role"@, n.role@) + extra_text(crate::storage::pair_views(snap.extra@))
}

/// Every reading of a network interface appears in the exposition on the
/// sample line of the metric that names it, under the interface's labels
/// (the link speed only when known); the link state reads 1 when up and 0
/// when down.
pub proof fn law_exposed_net_readings(snaps: Seq<Snapshot>, i: int, j: int)
    requires
        0 <= i < snaps.len(),
        0 <= j < snaps[i].host.networks@.len(),
    ensures
        ({
            let n = snaps[i].host.networks@[j];
            let l = exposed_net_labels(snaps[i], n);
            let e = exposition(snaps);
            &&& e.contains(int_line("dgmon_net_rx_bytes"@, l, n.rx_bytes as nat))
            &&& e.contains(int_line("dgmon_net_tx_bytes"@, l, n.tx_bytes as nat))
            &&& e.contains(int_line("dgmon_net_rx_packets"@, l, n.rx_packets as nat))
            &&& e.contains(int_line("dgmon_net_tx_packets"@, l, n.tx_packets as nat))
            &&& (n.speed_mbps matches Some(v) ==> e.contains(int_line("dgmon_net_speed_mbps"@, l, v as nat)))
            &&& e.contains(int_line("dgmon_net_up"@, l, if n.up { 1 } else { 0 }))
        }),
{
    let s = snaps[i];
    let n = s.host.networks@[j];
    let es = net_entries(n);
    let l = net_labels(s, n);
    assert(l == exposed_net_labels(s, n));
    assert forall|k: int| 0 <= k < es.len() implies exposition(snaps).contains(line_of(l, #[trigger] es[k])) by {
        assert(es.contains(es[k]));
        lemma_net_part(snaps, i, j, es[k]);
    }
    assert(es[0].0 == "dgmon_net_rx_bytes"@);
    assert(es[1].0 == "dgmon_net_tx_bytes"@);
    assert(es[2].0 == "dgmon_net_rx_packets"@);
    assert(es[3].0 == "dgmon_net_tx_packets"@);
    if let Some(v) = n.speed_mbps {
        assert(es[4].0 == "dgmon_net_speed_mbps"@);
        assert(es[5].0 == "dgmon_net_up"@);
    } else {
        assert(es[4].0 == "dgmon_net_up"@);
    }
}

/// The labels of the exposition lines of CPU core `c` of `snap`:
/// `hostname="..",core=".."` and the extra labels.
pub open spec fn exposed_core_labels(snap: Snapshot, c: crate::collector::CpuCoreSample) -> Seq<char> {
    label_text("hostname"@, snap.host.hostname@) + ","@ + label_text("core"@, decimal(c.index as nat))
        + extra_text(crate::storage::pair_views(snap.extra@))
}

/// Every reading of a CPU core appears in the exposition on the sample line
/// of the metric that names it, under the core's labels (frequencies and
/// governor only when known; the governor is written as the line's value).
pub proof fn law_exposed_core_readings(snaps: Seq<Snapshot>, i: int, j: int)
    requires
        0 <= i < snaps.len(),
        0 <= j < snaps[i].host.cpu_cores@.len(),
    ensures
        ({
            let c = snaps[i].host.cpu_cores@[j];
            let l = exposed_core_labels(snaps[i], c);
            let e = exposition(snaps);
            &&& e.contains(reading_line("dgmon_cpu_core_usage_pct"@, l, ValueSlot::Fixed1(c.usage_pct)))
            &&& (c.freq_mhz matches Some(v) ==> e.contains(int_line("dgmon_cpu_core_freq_mhz"@, l, v as nat)))
            &&& (c.governor matches Some(g) ==> e.contains(
                ("dgmon_cpu_core_governor"@ + "{"@ + l + "} "@ + g@, ValueSlot::NoValue),
            ))
            &&& (c.max_freq_mhz matches Some(v) ==> e.contains(
                int_line("dgmon_cpu_core_max_freq_mhz"@, l, v as nat),
            ))
        }),
{
    let s = snaps[i];
    let c = s.host.cpu_cores@[j];
    let es = core_entries(c);
    let l = core_labels(s, c);
    assert(l == exposed_core_labels(s, c));
    assert forall|k: int| 0 <= k < es.len() implies exposition(snaps).contains(line_of(l, #[trigger] es[k])) by {
        assert(es.contains(es[k]));
        lemma_core_part(snaps, i, j, es[k]);
    }
    assert(es[0].0 == "dgmon_cpu_core_usage_pct"@ && es[0].2 == Seq::<char>::empty());
    assert(line_of(l, es[0]).0 =~= "dgmon_cpu_core_usage_pct"@ + "{"@ + l + "} "@);
    let k1: int = if c.freq_mhz is Some { 1 } else { 0 };
    let k2: int = if c.governor is Some { k1 + 1 } else { k1 };
    if let Some(v) = c.freq_mhz {
        assert(es[1].0 == "dgmon_cpu_core_freq_mhz"@);
    }
    if let Some(g) = c.governor {
        assert(es[1 + k1].0 == "dgmon_cpu_core_governor"@);
    }
    if let Some(v) = c.max_freq_mhz {
        assert(es[1 + k2].0 == "dgmon_cpu_core_max_freq_mhz"@);
    }
}

} // verus!
