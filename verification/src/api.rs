//! What the versioned REST API under `/api/v1/` answers: node summaries,
//! lookups of one node or one GPU, GPU summaries, the latest point of each
//! series, and the error bodies.
use vstd::prelude::*;

use crate::collector::{GpuSample, Real32, Snapshot, Timestamp};
use crate::number::{decimal, push_decimal};
use crate::store::NodeStore;
use crate::text::{append_str, owned};

verus! {

broadcast use vstd::seq_lib::group_seq_properties;

/// A node summary for the `/api/v1/nodes` listing.
#[derive(Debug, Clone)]
pub struct NodeSummary {
    pub hostname: String,
    pub gpus: u32,
    pub timestamp: Timestamp,
}

/// A GPU summary for `/api/v1/nodes/{hostname}/gpus`.
#[derive(Debug, Clone)]
pub struct GpuSummary {
    pub index: u32,
    pub uuid: String,
    pub name: String,
    pub utilization_gpu: u32,
    pub utilization_memory: u32,
    pub temperature_c: u32,
    pub power_w: Option<Real32>,
    pub power_limit_w: Option<Real32>,
    pub memory_used_mb: Option<u64>,
    pub memory_total_mb: Option<u64>,
    pub fan_speed_pct: Option<u32>,
    pub pstate: String,
}

/// Error response body.
#[derive(Debug, Clone)]
pub struct ApiError {
    pub error: ApiErrorDetail,
}

/// The code and message of an error response.
#[derive(Debug, Clone)]
pub struct ApiErrorDetail {
    pub code: String,
    pub message: String,
}

/// One summary per kept snapshot, in listing order: the snapshot's own host
/// name, its GPU count and its time.
pub fn node_summaries(store: &NodeStore) -> (r: Vec<NodeSummary>)
    ensures
        r@.len() == store.listing().len(),
        forall|i: int|
            0 <= i < r@.len() ==> {
                let s = #[trigger] store.listing()[i].1;
                &&& r@[i].hostname@ == s.host.hostname@
                &&& r@[i].gpus == s.gpus@.len() as u32
                &&& r@[i].timestamp == s.timestamp
            },
{
    let snaps = store.all();
    let mut out: Vec<NodeSummary> = Vec::new();
    let mut i: usize = 0;
    while i < snaps.len()
        invariant
            i <= snaps@.len(),
            snaps@.len() == store.listing().len(),
            forall|j: int| 0 <= j < snaps@.len() ==> *snaps@[j] == store.listing()[j].1,
            out@.len() == i,
            forall|j: int|
                0 <= j < i ==> {
                    let s = #[trigger] store.listing()[j].1;
                    &&& out@[j].hostname@ == s.host.hostname@
                    &&& out@[j].gpus == s.gpus@.len() as u32
                    &&& out@[j].timestamp == s.timestamp
                },
        decreases snaps.len() - i,
    {
        let s = snaps[i];
        out.push(
            NodeSummary {
                hostname: s.host.hostname.clone(),
                gpus: s.gpus.len() as u32,
                timestamp: s.timestamp,
            },
        );
        i = i + 1;
    }
    out
}

/// The position of the first snapshot in `s` whose host is `hostname`.
pub open spec fn first_with_host(s: Seq<(String, Snapshot)>, hostname: Seq<char>) -> Option<int>
    decreases s.len(),
{
    if s.len() == 0 {
        None
    } else {
        match first_with_host(s.drop_last(), hostname) {
            Some(i) => Some(i),
            None => if s.last().1.host.hostname@ == hostname {
                Some(s.len() - 1)
            } else {
                None
            },
        }
    }
}

/// The node lookup gives the position of the first snapshot that reports
/// exactly the requested host name, and gives none only when no snapshot
/// reports it.
pub proof fn law_first_with_host(s: Seq<(String, Snapshot)>, hostname: Seq<char>)
    ensures
        first_with_host(s, hostname) matches Some(i) ==> {
            &&& 0 <= i < s.len()
            &&& s[i].1.host.hostname@ == hostname
            &&& forall|k: int| 0 <= k < i ==> s[k].1.host.hostname@ != hostname
        },
        first_with_host(s, hostname) is None <==> forall|k: int|
            0 <= k < s.len() ==> s[k].1.host.hostname@ != hostname,
    decreases s.len(),
{
    if s.len() > 0 {
        let t = s.drop_last();
        law_first_with_host(t, hostname);
        assert forall|k: int| 0 <= k < t.len() implies t[k] == s[k] by {}
        if first_with_host(t, hostname) is None && s.last().1.host.hostname@ != hostname {
            assert forall|k: int| 0 <= k < s.len() implies s[k].1.host.hostname@ != hostname by {
                if k < t.len() {
                    assert(t[k] == s[k]);
                }
            }
        }
    }
}

proof fn lemma_first_with_host_prefix(s: Seq<(String, Snapshot)>, h: Seq<char>, n: int)
    requires
        0 <= n <= s.len(),
        first_with_host(s.take(n), h) is Some,
    ensures
        first_with_host(s, h) == first_with_host(s.take(n), h),
    decreases s.len() - n,
{
    if n < s.len() {
        assert(s.take(n + 1).drop_last() =~= s.take(n));
        lemma_first_with_host_prefix(s, h, n + 1);
    } else {
        assert(s.take(n) =~= s);
    }
}

/// The latest snapshot whose host is `hostname`: the first such in listing
/// order.
pub fn find_snapshot<'a>(store: &'a NodeStore, hostname: &str) -> (r: Option<&'a Snapshot>)
    ensures
        r matches Some(s) ==> first_with_host(store.listing(), hostname@) matches Some(i) && *s
            == store.listing()[i].1,
        r is None ==> first_with_host(store.listing(), hostname@) is None,
        r matches Some(s) ==> s.host.hostname@ == hostname@,
        r is None <==> forall|k: int|
            0 <= k < store.listing().len() ==> store.listing()[k].1.host.hostname@ != hostname@,
{
    proof {
        law_first_with_host(store.listing(), hostname@);
    }
    let snaps = store.all();
    let key = owned(hostname);
    let ghost l = store.listing();
    let mut i: usize = 0;
    while i < snaps.len()
        invariant
            i <= snaps@.len(),
            l == store.listing(),
            snaps@.len() == l.len(),
            forall|j: int| 0 <= j < snaps@.len() ==> *snaps@[j] == l[j].1,
            key@ == hostname@,
            first_with_host(l.take(i as int), hostname@) is None,
        decreases snaps.len() - i,
    {
        assert(l.take(i + 1).drop_last() =~= l.take(i as int));
        assert(l.take(i + 1).last() == l[i as int]);
        if snaps[i].host.hostname == key {
            proof {
                lemma_first_with_host_prefix(l, hostname@, i + 1);
            }
            return Some(snaps[i]);
        }
        i = i + 1;
    }
    assert(l.take(l.len() as int) =~= l);
    None
}

/// The position of the first GPU in `gpus` with this index.
pub open spec fn first_gpu(gpus: Seq<GpuSample>, index: u32) -> Option<int>
    decreases gpus.len(),
{
    if gpus.len() == 0 {
        None
    } else {
        match first_gpu(gpus.drop_last(), index) {
            Some(i) => Some(i),
            None => if gpus.last().index == index {
                Some(gpus.len() - 1)
            } else {
                None
            },
        }
    }
}

/// The GPU lookup gives the position of the first GPU with exactly the
/// requested index, and gives none only when no GPU has it.
pub proof fn law_first_gpu(gpus: Seq<GpuSample>, index: u32)
    ensures
        first_gpu(gpus, index) matches Some(i) ==> {
            &&& 0 <= i < gpus.len()
            &&& gpus[i].index == index
            &&& forall|k: int| 0 <= k < i ==> gpus[k].index != index
        },
        first_gpu(gpus, index) is None <==> forall|k: int| 0 <= k < gpus.len() ==> gpus[k].index != index,
    decreases gpus.len(),
{
    if gpus.len() > 0 {
        let t = gpus.drop_last();
        law_first_gpu(t, index);
        assert forall|k: int| 0 <= k < t.len() implies t[k] == gpus[k] by {}
        if first_gpu(t, index) is None && gpus.last().index != index {
            assert forall|k: int| 0 <= k < gpus.len() implies gpus[k].index != index by {
                if k < t.len() {
                    assert(t[k] == gpus[k]);
                }
            }
        }
    }
}

proof fn lemma_first_gpu_prefix(s: Seq<GpuSample>, index: u32, n: int)
    requires
        0 <= n <= s.len(),
        first_gpu(s.take(n), index) is Some,
    ensures
        first_gpu(s, index) == first_gpu(s.take(n), index),
    decreases s.len() - n,
{
    if n < s.len() {
        assert(s.take(n + 1).drop_last() =~= s.take(n));
        lemma_first_gpu_prefix(s, index, n + 1);
    } else {
        assert(s.take(n) =~= s);
    }
}

/// The first GPU of `snap` with this index.
pub fn find_gpu(snap: &Snapshot, index: u32) -> (r: Option<&GpuSample>)
    ensures
        r matches Some(g) ==> first_gpu(snap.gpus@, index) matches Some(i) && *g == snap.gpus@[i],
        r is None ==> first_gpu(snap.gpus@, index) is None,
        r matches Some(g) ==> g.index == index,
        r is None <==> forall|k: int| 0 <= k < snap.gpus@.len() ==> snap.gpus@[k].index != index,
{
    proof {
        law_first_gpu(snap.gpus@, index);
    }
    let ghost gs = snap.gpus@;
    let mut i: usize = 0;
    while i < snap.gpus.len()
        invariant
            i <= gs.len(),
            gs == snap.gpus@,
            first_gpu(gs.take(i as int), index) is None,
        decreases snap.gpus.len() - i,
    {
        assert(gs.take(i + 1).drop_last() =~= gs.take(i as int));
        assert(gs.take(i + 1).last() == gs[i as int]);
        if snap.gpus[i].index == index {
            proof {
                lemma_first_gpu_prefix(gs, index, i + 1);
            }
            return Some(&snap.gpus[i]);
        }
        i = i + 1;
    }
    assert(gs.take(gs.len() as int) =~= gs);
    None
}

/// `r` is the summary of `g`: its identity, utilization, temperature,
/// power, memory, fan and performance state, copied.
pub open spec fn summarizes(r: GpuSummary, g: GpuSample) -> bool {
    &&& r.index == g.index
    &&& r.uuid@ == g.uuid@
    &&& r.name@ == g.name@
    &&& r.utilization_gpu == g.utilization_gpu
    &&& r.utilization_memory == g.utilization_memory
    &&& r.temperature_c == g.temperature_c
    &&& r.power_w == g.power_w
    &&& r.power_limit_w == g.power_limit_w
    &&& r.memory_used_mb == g.memory_used_mb
    &&& r.memory_total_mb == g.memory_total_mb
    &&& r.fan_speed_pct == g.fan_speed_pct
    &&& r.pstate@ == g.pstate@
}

/// The summary of one GPU.
pub fn gpu_summary(g: &GpuSample) -> (r: GpuSummary)
    ensures
        summarizes(r, *g),
{
    GpuSummary {
        index: g.index,
        uuid: g.uuid.clone(),
        name: g.name.clone(),
        utilization_gpu: g.utilization_gpu,
        utilization_memory: g.utilization_memory,
        temperature_c: g.temperature_c,
        power_w: g.power_w,
        power_limit_w: g.power_limit_w,
        memory_used_mb: g.memory_used_mb,
        memory_total_mb: g.memory_total_mb,
        fan_speed_pct: g.fan_speed_pct,
        pstate: g.pstate.clone(),
    }
}

/// The summaries of all GPUs of a snapshot, in order.
pub fn gpu_summaries(snap: &Snapshot) -> (r: Vec<GpuSummary>)
    ensures
        r@.len() == snap.gpus@.len(),
        forall|i: int| 0 <= i < r@.len() ==> summarizes(#[trigger] r@[i], snap.gpus@[i]),
{
    let mut out: Vec<GpuSummary> = Vec::new();
    let mut i: usize = 0;
    while i < snap.gpus.len()
        invariant
            i <= snap.gpus@.len(),
            out@.len() == i,
            forall|j: int| 0 <= j < i ==> summarizes(#[trigger] out@[j], snap.gpus@[j]),
        decreases snap.gpus.len() - i,
    {
        out.push(gpu_summary(&snap.gpus[i]));
        i = i + 1;
    }
    out
}

/// For each series that has a point, its labels and its last point, in order.
pub open spec fn spec_latest<V>(series: Seq<(Vec<(String, String)>, Vec<(i64, V)>)>) -> Seq<
    (Vec<(String, String)>, (i64, V)),
>
    decreases series.len(),
{
    if series.len() == 0 {
        seq![]
    } else {
        let rest = spec_latest(series.drop_last());
        let (l, ps) = series.last();
        if ps@.len() == 0 {
            rest
        } else {
            rest.push((l, ps@.last()))
        }
    }
}

/// For each series that has a point, its labels and its last point.
pub fn latest_points<V: Copy>(series: Vec<(Vec<(String, String)>, Vec<(i64, V)>)>) -> (r: Vec<
    (Vec<(String, String)>, (i64, V)),
>)
    ensures
        r@ == spec_latest(series@),
{
    let ghost sv = series@;
    let mut out: Vec<(Vec<(String, String)>, (i64, V))> = Vec::new();
    let mut rest = series;
    let mut taken: Vec<(Vec<(String, String)>, Vec<(i64, V)>)> = Vec::new();
    let mut i: usize = 0;
    let n = rest.len();
    while i < n
        invariant
            i <= n == sv.len(),
            rest@ == sv.skip(i as int),
            out@ == spec_latest(sv.take(i as int)),
        decreases n - i,
    {
        let (labels, points) = rest.remove(0);
        proof {
            assert(sv.take(i + 1).drop_last() =~= sv.take(i as int));
            assert(sv.take(i + 1).last() == sv[i as int]);
            assert(rest@ =~= sv.skip(i + 1));
        }
        if points.len() > 0 {
            let last = points[points.len() - 1];
            out.push((labels, last));
        }
        i = i + 1;
    }
    assert(sv.take(sv.len() as int) =~= sv);
    out
}

/// The body of a 404 answer.
pub fn not_found(code: &str, message: String) -> (r: ApiError)
    ensures
        r.error.code@ == code@,
        r.error.message@ == message@,
{
    ApiError { error: ApiErrorDetail { code: owned(code), message } }
}

/// The message for a host name that no node reports.
pub open spec fn no_node_message(hostname: Seq<char>) -> Seq<char> {
    "no node named '"@ + hostname + "'"@
}

/// The 404 answer for a host name that no node reports.
pub fn node_not_found(hostname: &str) -> (r: ApiError)
    ensures
        r.error.code@ == "node_not_found"@,
        r.error.message@ == no_node_message(hostname@),
{
    let mut m = owned("no node named '");
    append_str(&mut m, hostname);
    append_str(&mut m, "'");
    not_found("node_not_found", m)
}

/// The 404 answer for a GPU index that a node does not have.
pub fn gpu_not_found(hostname: &str, index: u32) -> (r: ApiError)
    ensures
        r.error.code@ == "gpu_not_found"@,
        r.error.message@ == "node '"@ + hostname@ + "' has no GPU with index "@ + decimal(index as nat),
{
    let mut m = owned("node '");
    append_str(&mut m, hostname);
    append_str(&mut m, "' has no GPU with index ");
    push_decimal(&mut m, index as u64);
    not_found("gpu_not_found", m)
}

} // verus!
