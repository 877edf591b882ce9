//! Properties that relate several operations of the library: what the
//! mailbox answers after a post or an ack, what the node store gives back
//! after a put, and what the text encodings read back.
use vstd::prelude::*;

use crate::collector::{CpuCoreSample, GpuSample, InferenceSample, NetSample, Snapshot, Timestamp};
use crate::control::{
    acked, agent_prefix, pending_for, posted, spec_hostname_from_user_agent, Command, CommandOp,
};
use crate::metric_name::{
    inference_prefix, is_name_char, sanitize_char, spec_sanitize_metric_name, spec_strip_engine_prefix,
};
use crate::number::{all_digits, decimal, decimal_digit, digit_value, digits_value, spec_parse_unsigned};
use crate::storage::{
    base_labels, core_rows, gpu_labels, gpu_optional, gpu_rows, host_rows, inference_rows, net_rows,
    opt_row, opt_rows, snapshot_rows, LabelsView, RowView,
};
use crate::store::kept;
use crate::api::spec_latest;
use crate::inference::{dedup_by_url, has_url, lemma_dedup_urls};
use crate::http::{
    core_entries, core_labels, extra_text, gpu_base_entries, gpu_entries, gpu_labels as exposition_gpu_labels,
    gpu_optional_entries, gpu_optional_ints, gpu_throttle_entries, host_entries, host_labels, inference_labels,
    label_text, net_entries, net_labels, opt_int_entry, EntryView,
};
use crate::text::{has_prefix, trim};

verus! {

broadcast use vstd::seq_lib::group_seq_properties;

// ---------------------------------------------------------------------
// The command mailbox.
// ---------------------------------------------------------------------
/// A command queued for a host is what polling that host gives back: the
/// operation that was posted, with the time it was posted at.
pub proof fn law_poll_after_post(
    before: Map<Seq<char>, Command>,
    after: Map<Seq<char>, Command>,
    hostname: Seq<char>,
    op: CommandOp,
    issued_at: Timestamp,
)
    requires
        posted(before, after, hostname, op, issued_at, true),
    ensures
        pending_for(after, hostname) == Some(Command { op, issued_at }),
{
}

/// While a command is pending for a host, a second post for it is refused
/// and changes nothing: the first command stays pending.
pub proof fn law_post_refused_while_pending(
    before: Map<Seq<char>, Command>,
    after: Map<Seq<char>, Command>,
    hostname: Seq<char>,
    op: CommandOp,
    issued_at: Timestamp,
    r: bool,
)
    requires
        posted(before, after, hostname, op, issued_at, r),
        pending_for(before, hostname) is Some,
    ensures
        !r,
        after == before,
        pending_for(after, hostname) == pending_for(before, hostname),
{
}

/// Acking a host after a command was queued for it succeeds, leaves nothing
/// pending for the host, and gives back the mailbox as it was before the
/// post.
pub proof fn law_ack_undoes_post(
    m0: Map<Seq<char>, Command>,
    m1: Map<Seq<char>, Command>,
    m2: Map<Seq<char>, Command>,
    hostname: Seq<char>,
    op: CommandOp,
    issued_at: Timestamp,
    r: bool,
)
    requires
        posted(m0, m1, hostname, op, issued_at, true),
        acked(m1, m2, hostname, r),
    ensures
        r,
        pending_for(m2, hostname) is None,
        m2 == m0,
{
    assert(m2 =~= m0);
}

/// A second ack of the same host finds nothing pending and changes nothing.
pub proof fn law_ack_twice(
    m0: Map<Seq<char>, Command>,
    m1: Map<Seq<char>, Command>,
    m2: Map<Seq<char>, Command>,
    hostname: Seq<char>,
    r1: bool,
    r2: bool,
)
    requires
        acked(m0, m1, hostname, r1),
        acked(m1, m2, hostname, r2),
    ensures
        !r2,
        m2 == m1,
{
    assert(m2 =~= m1);
}

/// Posting for one host or acking one host leaves what every other host has
/// pending as it was.
pub proof fn law_hosts_independent(
    before: Map<Seq<char>, Command>,
    after_post: Map<Seq<char>, Command>,
    after_ack: Map<Seq<char>, Command>,
    hostname: Seq<char>,
    other: Seq<char>,
    op: CommandOp,
    issued_at: Timestamp,
    r_post: bool,
    r_ack: bool,
)
    requires
        posted(before, after_post, hostname, op, issued_at, r_post),
        acked(before, after_ack, hostname, r_ack),
        other != hostname,
    ensures
        pending_for(after_post, other) == pending_for(before, other),
        pending_for(after_ack, other) == pending_for(before, other),
{
}

// ---------------------------------------------------------------------
// The node store.
// ---------------------------------------------------------------------
/// After a put, the store gives back the snapshot put for that host, and
/// what it keeps for every other host is unchanged.
pub proof fn law_get_after_put(
    before: Map<Seq<char>, Snapshot>,
    hostname: Seq<char>,
    snap: Snapshot,
    other: Seq<char>,
)
    ensures
        kept(before.insert(hostname, snap), hostname) == Some(snap),
        other != hostname ==> kept(before.insert(hostname, snap), other) == kept(before, other),
{
}

/// The latest put for a host wins: two puts for it leave the second snapshot.
pub proof fn law_latest_put_wins(
    before: Map<Seq<char>, Snapshot>,
    hostname: Seq<char>,
    first: Snapshot,
    second: Snapshot,
)
    ensures
        kept(before.insert(hostname, first).insert(hostname, second), hostname) == Some(second),
{
}

// ---------------------------------------------------------------------
// Text encodings.
// ---------------------------------------------------------------------
/// A valid Prometheus metric name: `[a-zA-Z_:][a-zA-Z0-9_:]*`.
pub open spec fn is_valid_metric_name(s: Seq<char>) -> bool {
    &&& s.len() > 0
    &&& ('a' <= s[0] <= 'z' || 'A' <= s[0] <= 'Z' || s[0] == '_' || s[0] == ':')
    &&& forall|i: int| 0 <= i < s.len() ==> is_name_char(#[trigger] s[i]) || s[i] == ':'
}

/// Every sanitized inference metric name is a valid Prometheus metric name
/// that begins with `dgmon_inference_`.
pub proof fn law_sanitized_name_is_valid(name: Seq<char>)
    ensures
        is_valid_metric_name(spec_sanitize_metric_name(name)),
        has_prefix(spec_sanitize_metric_name(name), inference_prefix()),
{
    reveal_strlit("dgmon_inference_");
    let s = spec_sanitize_metric_name(name);
    let p = inference_prefix();
    assert(s.subrange(0, p.len() as int) =~= p);
    assert forall|i: int| 0 <= i < s.len() implies is_name_char(#[trigger] s[i]) || s[i] == ':' by {
        if i >= p.len() {
            assert(is_name_char(sanitize_char(spec_strip_engine_prefix(name)[i - p.len()])));
        }
    }
}

proof fn lemma_decimal_digit(d: nat)
    requires
        d < 10,
    ensures
        digit_value(decimal_digit(d), 10) == Some(d),
        decimal_digit(d) != '+',
{
}

proof fn lemma_decimal_digits(n: nat)
    ensures
        decimal(n).len() >= 1,
        all_digits(decimal(n), 10),
        digits_value(decimal(n), 10) == n,
    decreases n,
{
    if n < 10 {
        lemma_decimal_digit(n);
        assert(decimal(n).drop_last() =~= Seq::<char>::empty());
        assert(digits_value(decimal(n).drop_last(), 10) == 0);
    } else {
        lemma_decimal_digits(n / 10);
        lemma_decimal_digit(n % 10);
        let s = decimal(n);
        assert(s.drop_last() =~= decimal(n / 10));
        assert(s.last() == decimal_digit(n % 10));
        assert(digits_value(s, 10) == digits_value(s.drop_last(), 10) * 10 + (n % 10));
        assert((n / 10) * 10 + n % 10 == n);
        assert forall|i: int| 0 <= i < s.len() implies (#[trigger] digit_value(s[i], 10)) is Some by {
            if i < s.len() - 1 {
                assert(s[i] == decimal(n / 10)[i]);
            }
        }
    }
}

proof fn lemma_decimal_first(n: nat)
    ensures
        decimal(n)[0] != '+',
    decreases n,
{
    if n < 10 {
        lemma_decimal_digit(n);
    } else {
        lemma_decimal_first(n / 10);
        lemma_decimal_digits(n / 10);
    }
}

/// A number written in decimal reads back as the same number, for every
/// bound that it does not exceed.
pub proof fn law_decimal_reads_back(n: nat, max: nat)
    requires
        n <= max,
    ensures
        spec_parse_unsigned(decimal(n), 10, max) == Some(n),
{
    lemma_decimal_digits(n);
    lemma_decimal_first(n);
}

/// The host name a push agent puts in its `User-Agent` header is the one
/// the server reads back, when it is non-empty and has no white space at
/// its ends.
pub proof fn law_user_agent_round_trip(hostname: Seq<char>)
    requires
        hostname.len() > 0,
        trim(hostname) == hostname,
    ensures
        spec_hostname_from_user_agent(agent_prefix() + hostname) == Some(hostname),
{
    let ua = agent_prefix() + hostname;
    assert(ua.subrange(0, agent_prefix().len() as int) =~= agent_prefix());
    assert(ua.skip(agent_prefix().len() as int) =~= hostname);
}

// ---------------------------------------------------------------------
// Stored rows.
// ---------------------------------------------------------------------
/// The row carries the snapshot's labels first (the host name, then the
/// extra labels) and the snapshot's time.
pub open spec fn carries_snapshot_labels(r: RowView, snap: Snapshot) -> bool {
    let b = base_labels(snap);
    &&& b.len() <= r.1.len()
    &&& r.1.take(b.len() as int) == b
    &&& r.2 == snap.timestamp.spec_millis()
}

proof fn lemma_flatten_all<A>(ss: Seq<Seq<A>>, p: spec_fn(A) -> bool)
    requires
        forall|i: int, j: int| 0 <= i < ss.len() && 0 <= j < ss[i].len() ==> p(#[trigger] ss[i][j]),
    ensures
        forall|k: int| 0 <= k < ss.flatten().len() ==> p(#[trigger] ss.flatten()[k]),
    decreases ss.len(),
{
    if ss.len() > 0 {
        let rest = ss.drop_first();
        assert forall|i: int, j: int| 0 <= i < rest.len() && 0 <= j < rest[i].len() implies p(
            #[trigger] rest[i][j],
        ) by {
            assert(rest[i] == ss[i + 1]);
        }
        lemma_flatten_all(rest, p);
        let f = ss.flatten();
        assert(f == ss.first() + rest.flatten());
        assert forall|k: int| 0 <= k < f.len() implies p(#[trigger] f[k]) by {
            if k < ss.first().len() {
                assert(f[k] == ss[0][k]);
            } else {
                assert(f[k] == rest.flatten()[k - ss.first().len()]);
            }
        }
    }
}

proof fn lemma_concat_all<A>(a: Seq<A>, b: Seq<A>, p: spec_fn(A) -> bool)
    requires
        forall|k: int| 0 <= k < a.len() ==> p(#[trigger] a[k]),
        forall|k: int| 0 <= k < b.len() ==> p(#[trigger] b[k]),
    ensures
        forall|k: int| 0 <= k < (a + b).len() ==> p(#[trigger] (a + b)[k]),
{
    assert forall|k: int| 0 <= k < (a + b).len() implies p(#[trigger] (a + b)[k]) by {
        if k < a.len() {
            assert((a + b)[k] == a[k]);
        } else {
            assert((a + b)[k] == b[k - a.len()]);
        }
    }
}

proof fn lemma_extends(b: LabelsView, l: LabelsView, x: (Seq<char>, Seq<char>))
    requires
        b.len() <= l.len(),
        l.take(b.len() as int) == b,
    ensures
        b.len() <= l.push(x).len(),
        l.push(x).take(b.len() as int) == b,
{
    assert(l.push(x).take(b.len() as int) =~= l.take(b.len() as int));
}

proof fn lemma_gpu_rows_carry(snap: Snapshot, g: GpuSample)
    ensures
        forall|k: int|
            0 <= k < gpu_rows(base_labels(snap), snap.timestamp.spec_millis(), g).len()
                ==> carries_snapshot_labels(
                #[trigger] gpu_rows(base_labels(snap), snap.timestamp.spec_millis(), g)[k],
                snap,
            ),
{
    let b = base_labels(snap);
    let ts = snap.timestamp.spec_millis();
    let l = gpu_labels(b, g);
    let p = |r: RowView| carries_snapshot_labels(r, snap);
    assert(b.take(b.len() as int) =~= b);
    lemma_extends(b, b, ("gpu"@, decimal(g.index as nat)));
    lemma_extends(b, b.push(("gpu"@, decimal(g.index as nat))), ("uuid"@, g.uuid@));
    lemma_extends(
        b,
        b.push(("gpu"@, decimal(g.index as nat))).push(("uuid"@, g.uuid@)),
        ("model"@, g.name@),
    );
    let fixed = seq![
        ("dgmon_gpu_utilization"@, l, ts, crate::storage::SampleValue::Count(g.utilization_gpu as u64)),
        (
            "dgmon_gpu_mem_utilization"@,
            l,
            ts,
            crate::storage::SampleValue::Count(g.utilization_memory as u64),
        ),
        ("dgmon_gpu_temp_c"@, l, ts, crate::storage::SampleValue::Count(g.temperature_c as u64)),
    ];
    let ss = gpu_optional(g).map_values(
        |x: (Seq<char>, Option<crate::storage::SampleValue>)| opt_row(x.0, l, ts, x.1),
    );
    assert forall|i: int, j: int| 0 <= i < ss.len() && 0 <= j < ss[i].len() implies p(
        #[trigger] ss[i][j],
    ) by {
        let x = gpu_optional(g)[i];
        assert(ss[i] == opt_row(x.0, l, ts, x.1));
    }
    lemma_flatten_all(ss, p);
    assert forall|k: int| 0 <= k < fixed.len() implies p(#[trigger] fixed[k]) by {}
    lemma_concat_all(fixed, ss.flatten(), p);
    assert(gpu_rows(b, ts, g) == fixed + opt_rows(gpu_optional(g), l, ts));
}

/// Every row stored for a snapshot carries the host name label, then the
/// snapshot's extra labels, before its own labels, and the snapshot's time.
pub proof fn law_rows_carry_snapshot_labels(snap: Snapshot)
    ensures
        forall|k: int|
            0 <= k < snapshot_rows(snap).len() ==> carries_snapshot_labels(
                #[trigger] snapshot_rows(snap)[k],
                snap,
            ),
{
    let b = base_labels(snap);
    let ts = snap.timestamp.spec_millis();
    let p = |r: RowView| carries_snapshot_labels(r, snap);
    assert(b.take(b.len() as int) =~= b);
    let hr = host_rows(snap, ts);
    assert forall|k: int| 0 <= k < hr.len() implies p(#[trigger] hr[k]) by {}
    let cs = snap.host.cpu_cores@.map_values(|c: CpuCoreSample| core_rows(b, ts, c));
    assert forall|i: int, j: int| 0 <= i < cs.len() && 0 <= j < cs[i].len() implies p(
        #[trigger] cs[i][j],
    ) by {
        let c = snap.host.cpu_cores@[i];
        lemma_extends(b, b, ("core"@, decimal(c.index as nat)));
    }
    lemma_flatten_all(cs, p);
    let ns = snap.host.networks@.map_values(|n: NetSample| net_rows(b, ts, n));
    assert forall|i: int, j: int| 0 <= i < ns.len() && 0 <= j < ns[i].len() implies p(
        #[trigger] ns[i][j],
    ) by {
        let n = snap.host.networks@[i];
        lemma_extends(b, b, ("interface"@, n.interface@));
        lemma_extends(b, b.push(("interface"@, n.interface@)), ("role"@, n.role@));
        let rows = net_rows(b, ts, n);
        assert(ns[i] == rows);
    }
    lemma_flatten_all(ns, p);
    let gs = snap.gpus@.map_values(|g: GpuSample| gpu_rows(b, ts, g));
    assert forall|i: int, j: int| 0 <= i < gs.len() && 0 <= j < gs[i].len() implies p(
        #[trigger] gs[i][j],
    ) by {
        lemma_gpu_rows_carry(snap, snap.gpus@[i]);
        assert(gs[i] == gpu_rows(b, ts, snap.gpus@[i]));
    }
    lemma_flatten_all(gs, p);
    let is = snap.inference@.map_values(|x: InferenceSample| inference_rows(b, ts, x));
    assert forall|i: int, j: int| 0 <= i < is.len() && 0 <= j < is[i].len() implies p(
        #[trigger] is[i][j],
    ) by {
        let x = snap.inference@[i];
        lemma_extends(b, b, ("engine"@, x.engine@));
        lemma_extends(b, b.push(("engine"@, x.engine@)), ("model_name"@, x.model_name@));
        assert(is[i] == inference_rows(b, ts, x));
    }
    lemma_flatten_all(is, p);
    lemma_concat_all(hr, cs.flatten(), p);
    lemma_concat_all(hr + cs.flatten(), ns.flatten(), p);
    lemma_concat_all(hr + cs.flatten() + ns.flatten(), gs.flatten(), p);
    lemma_concat_all(hr + cs.flatten() + ns.flatten() + gs.flatten(), is.flatten(), p);
    assert(snapshot_rows(snap) == hr + cs.flatten() + ns.flatten() + gs.flatten() + is.flatten());
}

// ---------------------------------------------------------------------
// Discovery.
// ---------------------------------------------------------------------
/// Deduplicating discovered targets keeps each base URL exactly once: no
/// URL repeats, and every URL found is still there.
pub proof fn law_dedup_each_url_once(ts: Seq<(Seq<char>, Seq<char>)>)
    ensures
        forall|i: int, j: int|
            0 <= i < j < dedup_by_url(ts).len() ==> (#[trigger] dedup_by_url(ts)[i]).0 != (
            #[trigger] dedup_by_url(ts)[j]).0,
        forall|u: Seq<char>| has_url(dedup_by_url(ts), u) <==> has_url(ts, u),
    decreases ts.len(),
{
    lemma_dedup_urls(ts);
    if ts.len() > 0 {
        let t = ts.drop_last();
        law_dedup_each_url_once(t);
        lemma_dedup_urls(t);
        let d = dedup_by_url(t);
        if !has_url(t, ts.last().0) {
            let e = d.push(ts.last());
            assert(dedup_by_url(ts) == e);
            assert forall|i: int, j: int| 0 <= i < j < e.len() implies (#[trigger] e[i]).0 != (
            #[trigger] e[j]).0 by {
                if j == e.len() - 1 {
                    assert(e[i] == d[i]);
                    if d[i].0 == ts.last().0 {
                        assert(has_url(d, ts.last().0));
                    }
                } else {
                    assert(e[i] == d[i]);
                    assert(e[j] == d[j]);
                }
            }
        }
    }
}

// ---------------------------------------------------------------------
// The Prometheus exposition.
// ---------------------------------------------------------------------
/// `l` starts with the snapshot's `hostname` label and ends with its extra
/// labels.
pub open spec fn carries_host_and_extra(l: Seq<char>, snap: Snapshot) -> bool {
    let h = label_text("hostname"@, snap.host.hostname@);
    let x = extra_text(crate::storage::pair_views(snap.extra@));
    &&& has_prefix(l, h)
    &&& x.len() <= l.len()
    &&& l.skip(l.len() - x.len()) == x
}

/// Every label set of the exposition of a snapshot (host, CPU core,
/// interface, GPU, inference server) carries the `hostname` label first and
/// the snapshot's extra labels last.
pub proof fn law_exposition_labels(
    snap: Snapshot,
    c: CpuCoreSample,
    n: NetSample,
    g: GpuSample,
    i: InferenceSample,
)
    ensures
        carries_host_and_extra(host_labels(snap), snap),
        carries_host_and_extra(core_labels(snap, c), snap),
        carries_host_and_extra(net_labels(snap, n), snap),
        carries_host_and_extra(exposition_gpu_labels(snap, g), snap),
        carries_host_and_extra(inference_labels(snap, i), snap),
{
    let h = label_text("hostname"@, snap.host.hostname@);
    let x = extra_text(crate::storage::pair_views(snap.extra@));
    let ls = seq![
        host_labels(snap),
        core_labels(snap, c),
        net_labels(snap, n),
        exposition_gpu_labels(snap, g),
        inference_labels(snap, i),
    ];
    let mids = seq![
        Seq::<char>::empty(),
        ","@ + label_text("core"@, decimal(c.index as nat)),
        ","@ + label_text("interface"@, n.interface@) + ","@ + label_text("role"@, n.role@),
        ","@ + label_text("gpu"@, decimal(g.index as nat)) + ","@ + label_text("uuid"@, g.uuid@) + ","@
            + label_text("model"@, g.name@),
        ","@ + label_text("engine"@, i.engine@) + ","@ + label_text("model_name"@, i.model_name@),
    ];
    assert(host_labels(snap) =~= h + mids[0] + x);
    assert(core_labels(snap, c) =~= h + mids[1] + x);
    assert(net_labels(snap, n) =~= h + mids[2] + x);
    assert(exposition_gpu_labels(snap, g) =~= h + mids[3] + x);
    assert(inference_labels(snap, i) =~= h + mids[4] + x);
    assert forall|k: int| 0 <= k < 5 implies carries_host_and_extra(#[trigger] ls[k], snap) by {
        let l = h + mids[k] + x;
        assert(ls[k] == l);
        assert(l.subrange(0, h.len() as int) =~= h);
        assert(l.skip(l.len() - x.len()) =~= x);
    }
    assert(ls[0] == host_labels(snap));
    assert(ls[1] == core_labels(snap, c));
    assert(ls[2] == net_labels(snap, n));
    assert(ls[3] == exposition_gpu_labels(snap, g));
    assert(ls[4] == inference_labels(snap, i));
}

// ---------------------------------------------------------------------
// Metric names.
// ---------------------------------------------------------------------
/// The name carries the `dgmon_` prefix.
pub open spec fn dgmon_named(name: Seq<char>) -> bool {
    has_prefix(name, "dgmon_"@)
}

proof fn lemma_host_metric_names()
    ensures
        dgmon_named("dgmon_cpu_usage_pct"@),
        dgmon_named("dgmon_disk_total_gb"@),
        dgmon_named("dgmon_disk_used_gb"@),
        dgmon_named("dgmon_memory_total_mb"@),
        dgmon_named("dgmon_memory_used_mb"@),
        dgmon_named("dgmon_network_rx_bytes"@),
        dgmon_named("dgmon_network_tx_bytes"@),
        dgmon_named("dgmon_uptime_seconds"@),
{
    reveal_strlit("dgmon_");
    reveal_strlit("dgmon_cpu_usage_pct");
    assert(("dgmon_cpu_usage_pct"@).subrange(0, 6) =~= "dgmon_"@);
    reveal_strlit("dgmon_disk_total_gb");
    assert(("dgmon_disk_total_gb"@).subrange(0, 6) =~= "dgmon_"@);
    reveal_strlit("dgmon_disk_used_gb");
    assert(("dgmon_disk_used_gb"@).subrange(0, 6) =~= "dgmon_"@);
    reveal_strlit("dgmon_memory_total_mb");
    assert(("dgmon_memory_total_mb"@).subrange(0, 6) =~= "dgmon_"@);
    reveal_strlit("dgmon_memory_used_mb");
    assert(("dgmon_memory_used_mb"@).subrange(0, 6) =~= "dgmon_"@);
    reveal_strlit("dgmon_network_rx_bytes");
    assert(("dgmon_network_rx_bytes"@).subrange(0, 6) =~= "dgmon_"@);
    reveal_strlit("dgmon_network_tx_bytes");
    assert(("dgmon_network_tx_bytes"@).subrange(0, 6) =~= "dgmon_"@);
    reveal_strlit("dgmon_uptime_seconds");
    assert(("dgmon_uptime_seconds"@).subrange(0, 6) =~= "dgmon_"@);
}

proof fn lemma_core_metric_names()
    ensures
        dgmon_named("dgmon_cpu_core_freq_mhz"@),
        dgmon_named("dgmon_cpu_core_governor"@),
        dgmon_named("dgmon_cpu_core_max_freq_mhz"@),
        dgmon_named("dgmon_cpu_core_usage_pct"@),
{
    reveal_strlit("dgmon_");
    reveal_strlit("dgmon_cpu_core_freq_mhz");
    assert(("dgmon_cpu_core_freq_mhz"@).subrange(0, 6) =~= "dgmon_"@);
    reveal_strlit("dgmon_cpu_core_governor");
    assert(("dgmon_cpu_core_governor"@).subrange(0, 6) =~= "dgmon_"@);
    reveal_strlit("dgmon_cpu_core_max_freq_mhz");
    assert(("dgmon_cpu_core_max_freq_mhz"@).subrange(0, 6) =~= "dgmon_"@);
    reveal_strlit("dgmon_cpu_core_usage_pct");
    assert(("dgmon_cpu_core_usage_pct"@).subrange(0, 6) =~= "dgmon_"@);
}

proof fn lemma_net_metric_names()
    ensures
        dgmon_named("dgmon_net_rx_bytes"@),
        dgmon_named("dgmon_net_rx_packets"@),
        dgmon_named("dgmon_net_speed_mbps"@),
        dgmon_named("dgmon_net_tx_bytes"@),
        dgmon_named("dgmon_net_tx_packets"@),
        dgmon_named("dgmon_net_up"@),
{
    reveal_strlit("dgmon_");
    reveal_strlit("dgmon_net_rx_bytes");
    assert(("dgmon_net_rx_bytes"@).subrange(0, 6) =~= "dgmon_"@);
    reveal_strlit("dgmon_net_rx_packets");
    assert(("dgmon_net_rx_packets"@).subrange(0, 6) =~= "dgmon_"@);
    reveal_strlit("dgmon_net_speed_mbps");
    assert(("dgmon_net_speed_mbps"@).subrange(0, 6) =~= "dgmon_"@);
    reveal_strlit("dgmon_net_tx_bytes");
    assert(("dgmon_net_tx_bytes"@).subrange(0, 6) =~= "dgmon_"@);
    reveal_strlit("dgmon_net_tx_packets");
    assert(("dgmon_net_tx_packets"@).subrange(0, 6) =~= "dgmon_"@);
    reveal_strlit("dgmon_net_up");
    assert(("dgmon_net_up"@).subrange(0, 6) =~= "dgmon_"@);
}

proof fn lemma_gpu_metric_names()
    ensures
        dgmon_named("dgmon_gpu_fan_speed_pct"@),
        dgmon_named("dgmon_gpu_mem_clock_max_mhz"@),
        dgmon_named("dgmon_gpu_mem_clock_mhz"@),
        dgmon_named("dgmon_gpu_mem_temp_c"@),
        dgmon_named("dgmon_gpu_mem_utilization"@),
        dgmon_named("dgmon_gpu_memory_total_mb"@),
        dgmon_named("dgmon_gpu_memory_used_mb"@),
        dgmon_named("dgmon_gpu_pcie_link_gen"@),
        dgmon_named("dgmon_gpu_pcie_link_gen_max"@),
        dgmon_named("dgmon_gpu_pcie_link_width"@),
        dgmon_named("dgmon_gpu_pcie_link_width_max"@),
        dgmon_named("dgmon_gpu_power_limit_w"@),
        dgmon_named("dgmon_gpu_power_w"@),
        dgmon_named("dgmon_gpu_sm_clock_max_mhz"@),
        dgmon_named("dgmon_gpu_sm_clock_mhz"@),
        dgmon_named("dgmon_gpu_temp_c"@),
        dgmon_named("dgmon_gpu_throttle_active"@),
        dgmon_named("dgmon_gpu_throttle_hw_slowdown"@),
        dgmon_named("dgmon_gpu_throttle_hw_thermal"@),
        dgmon_named("dgmon_gpu_throttle_power_brake"@),
        dgmon_named("dgmon_gpu_throttle_sw_thermal"@),
        dgmon_named("dgmon_gpu_utilization"@),
{
    reveal_strlit("dgmon_");
    reveal_strlit("dgmon_gpu_fan_speed_pct");
    assert(("dgmon_gpu_fan_speed_pct"@).subrange(0, 6) =~= "dgmon_"@);
    reveal_strlit("dgmon_gpu_mem_clock_max_mhz");
    assert(("dgmon_gpu_mem_clock_max_mhz"@).subrange(0, 6) =~= "dgmon_"@);
    reveal_strlit("dgmon_gpu_mem_clock_mhz");
    assert(("dgmon_gpu_mem_clock_mhz"@).subrange(0, 6) =~= "dgmon_"@);
    reveal_strlit("dgmon_gpu_mem_temp_c");
    assert(("dgmon_gpu_mem_temp_c"@).subrange(0, 6) =~= "dgmon_"@);
    reveal_strlit("dgmon_gpu_mem_utilization");
    assert(("dgmon_gpu_mem_utilization"@).subrange(0, 6) =~= "dgmon_"@);
    reveal_strlit("dgmon_gpu_memory_total_mb");
    assert(("dgmon_gpu_memory_total_mb"@).subrange(0, 6) =~= "dgmon_"@);
    reveal_strlit("dgmon_gpu_memory_used_mb");
    assert(("dgmon_gpu_memory_used_mb"@).subrange(0, 6) =~= "dgmon_"@);
    reveal_strlit("dgmon_gpu_pcie_link_gen");
    assert(("dgmon_gpu_pcie_link_gen"@).subrange(0, 6) =~= "dgmon_"@);
    reveal_strlit("dgmon_gpu_pcie_link_gen_max");
    assert(("dgmon_gpu_pcie_link_gen_max"@).subrange(0, 6) =~= "dgmon_"@);
    reveal_strlit("dgmon_gpu_pcie_link_width");
    assert(("dgmon_gpu_pcie_link_width"@).subrange(0, 6) =~= "dgmon_"@);
    reveal_strlit("dgmon_gpu_pcie_link_width_max");
    assert(("dgmon_gpu_pcie_link_width_max"@).subrange(0, 6) =~= "dgmon_"@);
    reveal_strlit("dgmon_gpu_power_limit_w");
    assert(("dgmon_gpu_power_limit_w"@).subrange(0, 6) =~= "dgmon_"@);
    reveal_strlit("dgmon_gpu_power_w");
    assert(("dgmon_gpu_power_w"@).subrange(0, 6) =~= "dgmon_"@);
    reveal_strlit("dgmon_gpu_sm_clock_max_mhz");
    assert(("dgmon_gpu_sm_clock_max_mhz"@).subrange(0, 6) =~= "dgmon_"@);
    reveal_strlit("dgmon_gpu_sm_clock_mhz");
    assert(("dgmon_gpu_sm_clock_mhz"@).subrange(0, 6) =~= "dgmon_"@);
    reveal_strlit("dgmon_gpu_temp_c");
    assert(("dgmon_gpu_temp_c"@).subrange(0, 6) =~= "dgmon_"@);
    reveal_strlit("dgmon_gpu_throttle_active");
    assert(("dgmon_gpu_throttle_active"@).subrange(0, 6) =~= "dgmon_"@);
    reveal_strlit("dgmon_gpu_throttle_hw_slowdown");
    assert(("dgmon_gpu_throttle_hw_slowdown"@).subrange(0, 6) =~= "dgmon_"@);
    reveal_strlit("dgmon_gpu_throttle_hw_thermal");
    assert(("dgmon_gpu_throttle_hw_thermal"@).subrange(0, 6) =~= "dgmon_"@);
    reveal_strlit("dgmon_gpu_throttle_power_brake");
    assert(("dgmon_gpu_throttle_power_brake"@).subrange(0, 6) =~= "dgmon_"@);
    reveal_strlit("dgmon_gpu_throttle_sw_thermal");
    assert(("dgmon_gpu_throttle_sw_thermal"@).subrange(0, 6) =~= "dgmon_"@);
    reveal_strlit("dgmon_gpu_utilization");
    assert(("dgmon_gpu_utilization"@).subrange(0, 6) =~= "dgmon_"@);
}

proof fn lemma_inference_prefix_named(name: Seq<char>)
    requires
        has_prefix(name, inference_prefix()),
    ensures
        dgmon_named(name),
{
    reveal_strlit("dgmon_");
    reveal_strlit("dgmon_inference_");
    assert(name.subrange(0, 6) =~= inference_prefix().subrange(0, 6));
    assert(inference_prefix().subrange(0, 6) =~= "dgmon_"@);
}

/// Every row stored for a snapshot has a metric name that begins with
/// `dgmon_` (inference metrics with `dgmon_inference_`).
pub proof fn law_row_names_prefixed(snap: Snapshot)
    ensures
        forall|k: int| 0 <= k < snapshot_rows(snap).len() ==> dgmon_named(#[trigger] snapshot_rows(snap)[k].0),
{
    lemma_host_metric_names();
    lemma_core_metric_names();
    lemma_net_metric_names();
    lemma_gpu_metric_names();
    let b = base_labels(snap);
    let ts = snap.timestamp.spec_millis();
    let p = |r: RowView| dgmon_named(r.0);
    let hr = host_rows(snap, ts);
    assert forall|k: int| 0 <= k < hr.len() implies p(#[trigger] hr[k]) by {}
    let cs = snap.host.cpu_cores@.map_values(|c: CpuCoreSample| core_rows(b, ts, c));
    assert forall|i: int, j: int| 0 <= i < cs.len() && 0 <= j < cs[i].len() implies p(
        #[trigger] cs[i][j],
    ) by {}
    lemma_flatten_all(cs, p);
    let ns = snap.host.networks@.map_values(|n: NetSample| net_rows(b, ts, n));
    assert forall|i: int, j: int| 0 <= i < ns.len() && 0 <= j < ns[i].len() implies p(
        #[trigger] ns[i][j],
    ) by {
        assert(ns[i] == net_rows(b, ts, snap.host.networks@[i]));
    }
    lemma_flatten_all(ns, p);
    let gs = snap.gpus@.map_values(|g: GpuSample| gpu_rows(b, ts, g));
    assert forall|i: int, j: int| 0 <= i < gs.len() && 0 <= j < gs[i].len() implies p(
        #[trigger] gs[i][j],
    ) by {
        let g = snap.gpus@[i];
        let l = gpu_labels(b, g);
        let ss = gpu_optional(g).map_values(
            |x: (Seq<char>, Option<crate::storage::SampleValue>)| opt_row(x.0, l, ts, x.1),
        );
        assert forall|a: int, c: int| 0 <= a < ss.len() && 0 <= c < ss[a].len() implies p(
            #[trigger] ss[a][c],
        ) by {
            let x = gpu_optional(g)[a];
            assert(ss[a] == opt_row(x.0, l, ts, x.1));
        }
        lemma_flatten_all(ss, p);
        let fixed = seq![
            ("dgmon_gpu_utilization"@, l, ts, crate::storage::SampleValue::Count(g.utilization_gpu as u64)),
            (
                "dgmon_gpu_mem_utilization"@,
                l,
                ts,
                crate::storage::SampleValue::Count(g.utilization_memory as u64),
            ),
            ("dgmon_gpu_temp_c"@, l, ts, crate::storage::SampleValue::Count(g.temperature_c as u64)),
        ];
        assert forall|k: int| 0 <= k < fixed.len() implies p(#[trigger] fixed[k]) by {}
        lemma_concat_all(fixed, ss.flatten(), p);
        assert(gs[i] == fixed + opt_rows(gpu_optional(g), l, ts));
    }
    lemma_flatten_all(gs, p);
    let is = snap.inference@.map_values(|x: InferenceSample| inference_rows(b, ts, x));
    assert forall|i: int, j: int| 0 <= i < is.len() && 0 <= j < is[i].len() implies p(
        #[trigger] is[i][j],
    ) by {
        let x = snap.inference@[i];
        assert(is[i] == inference_rows(b, ts, x));
        let m = x.metrics@[j];
        law_sanitized_name_is_valid(m.0@);
        lemma_inference_prefix_named(spec_sanitize_metric_name(m.0@));
    }
    lemma_flatten_all(is, p);
    lemma_concat_all(hr, cs.flatten(), p);
    lemma_concat_all(hr + cs.flatten(), ns.flatten(), p);
    lemma_concat_all(hr + cs.flatten() + ns.flatten(), gs.flatten(), p);
    lemma_concat_all(hr + cs.flatten() + ns.flatten() + gs.flatten(), is.flatten(), p);
    assert(snapshot_rows(snap) == hr + cs.flatten() + ns.flatten() + gs.flatten() + is.flatten());
}

/// Every metric of the exposition of a snapshot that is not scraped from an
/// inference server (host, CPU core, interface, GPU) has a name that begins
/// with `dgmon_`.
pub proof fn law_exposition_names_prefixed(snap: Snapshot, c: CpuCoreSample, n: NetSample, g: GpuSample)
    ensures
        forall|k: int| 0 <= k < host_entries(snap).len() ==> dgmon_named(#[trigger] host_entries(snap)[k].0),
        forall|k: int| 0 <= k < core_entries(c).len() ==> dgmon_named(#[trigger] core_entries(c)[k].0),
        forall|k: int| 0 <= k < net_entries(n).len() ==> dgmon_named(#[trigger] net_entries(n)[k].0),
        forall|k: int| 0 <= k < gpu_entries(g).len() ==> dgmon_named(#[trigger] gpu_entries(g)[k].0),
{
    lemma_host_metric_names();
    lemma_core_metric_names();
    lemma_net_metric_names();
    lemma_gpu_metric_names();
    let p = |e: EntryView| dgmon_named(e.0);
    let he = host_entries(snap);
    assert forall|k: int| 0 <= k < he.len() implies p(#[trigger] he[k]) by {}
    let ce = core_entries(c);
    assert forall|k: int| 0 <= k < ce.len() implies p(#[trigger] ce[k]) by {}
    let ne = net_entries(n);
    assert forall|k: int| 0 <= k < ne.len() implies p(#[trigger] ne[k]) by {}
    let base = gpu_base_entries(g);
    assert forall|k: int| 0 <= k < base.len() implies p(#[trigger] base[k]) by {}
    let ss = gpu_optional_ints(g).map_values(
        |x: (Seq<char>, Seq<char>, Option<u64>)| opt_int_entry(x.0, x.1, x.2),
    );
    assert forall|i: int, j: int| 0 <= i < ss.len() && 0 <= j < ss[i].len() implies p(
        #[trigger] ss[i][j],
    ) by {
        let x = gpu_optional_ints(g)[i];
        assert(ss[i] == opt_int_entry(x.0, x.1, x.2));
    }
    lemma_flatten_all(ss, p);
    let th = gpu_throttle_entries(g);
    assert forall|k: int| 0 <= k < th.len() implies p(#[trigger] th[k]) by {}
    lemma_concat_all(base, ss.flatten(), p);
    lemma_concat_all(base + ss.flatten(), th, p);
    assert(gpu_entries(g) == base + gpu_optional_entries(g) + th);
}

// ---------------------------------------------------------------------
// The latest point of each series.
// ---------------------------------------------------------------------
/// The points of a series come earliest first.
pub open spec fn time_ordered<V>(ps: Seq<(i64, V)>) -> bool {
    forall|i: int, j: int| 0 <= i <= j < ps.len() ==> ps[i].0 <= ps[j].0
}

/// When every series holds its points earliest first, the point that
/// `latest_points` keeps for a series is its last one, and no point of the
/// series is later.
pub proof fn law_latest_point_is_latest<V>(series: Seq<(Vec<(String, String)>, Vec<(i64, V)>)>)
    requires
        forall|k: int| 0 <= k < series.len() ==> time_ordered(#[trigger] series[k].1@),
    ensures
        spec_latest(series).len() <= series.len(),
        forall|j: int|
            0 <= j < spec_latest(series).len() ==> exists|k: int|
                0 <= k < series.len() && series[k].1@.len() > 0 && #[trigger] spec_latest(series)[j]
                    == (series[k].0, series[k].1@.last()) && (forall|p: int|
                    0 <= p < series[k].1@.len() ==> series[k].1@[p].0 <= spec_latest(series)[j].1.0),
    decreases series.len(),
{
    if series.len() > 0 {
        let rest = series.drop_last();
        assert forall|k: int| 0 <= k < rest.len() implies time_ordered(#[trigger] rest[k].1@) by {
            assert(rest[k] == series[k]);
        }
        law_latest_point_is_latest(rest);
        let n = series.len() - 1;
        let (l, ps) = series.last();
        assert forall|j: int| 0 <= j < spec_latest(series).len() implies exists|k: int|
            0 <= k < series.len() && series[k].1@.len() > 0 && #[trigger] spec_latest(series)[j]
                == (series[k].0, series[k].1@.last()) && (forall|p: int|
                0 <= p < series[k].1@.len() ==> series[k].1@[p].0 <= spec_latest(series)[j].1.0) by {
            if j < spec_latest(rest).len() {
                assert(spec_latest(series)[j] == spec_latest(rest)[j]);
                let k = choose|k: int|
                    0 <= k < rest.len() && rest[k].1@.len() > 0 && #[trigger] spec_latest(rest)[j]
                        == (rest[k].0, rest[k].1@.last()) && (forall|p: int|
                        0 <= p < rest[k].1@.len() ==> rest[k].1@[p].0 <= spec_latest(rest)[j].1.0);
                assert(rest[k] == series[k]);
            } else {
                assert(series[n] == (l, ps));
                assert(time_ordered(series[n].1@));
                assert(forall|p: int| 0 <= p < ps@.len() ==> #[trigger] ps@[p].0 <= ps@[ps@.len() - 1].0);
            }
        }
    }
}

} // verus!
