//! Configuration of the collector agent, the server and the service, and the
//! per-snapshot overrides it asks for.
//!
//! The agent reads a JSON config file of this shape:
//!
//! ```json
//! {
//!   "server_url": "http://10.0.0.1:9401/ingest",
//!   "interval_secs": 5,
//!   "mock": false,
//!   "hostname": "node1",
//!   "labels": {
//!     "cluster": "dgx-spark-prod",
//!     "rack": "r1"
//!   }
//! }
//! ```
use vstd::prelude::*;

use crate::collector::{HostSample, NetSample, Snapshot};
use crate::table::keys_distinct;
use crate::storage::pair_views;
use crate::text::owned;

verus! {

broadcast use vstd::seq_lib::group_seq_properties;

/// Collector agent configuration.
#[derive(Debug, Clone)]
pub struct CollectorConfig {
    /// URL of the dgmon server ingest endpoint.
    pub server_url: String,
    /// Push interval in seconds.
    pub interval_secs: u64,
    /// Use the mock collector instead of nvidia-smi.
    pub mock: bool,
    /// Override the hostname reported with each snapshot.
    /// When omitted, the collector's default hostname is used.
    pub hostname: Option<String>,
    /// Extra labels attached to every snapshot from this node, one entry per
    /// label name.
    pub labels: Vec<(String, String)>,
    /// Manual inference server targets. Each entry is a base URL like
    /// `http://127.0.0.1:8000`. When set, discovery is skipped for these.
    pub inference_servers: Vec<String>,
    /// Optional per-interface role overrides: (interface name, role), one
    /// entry per interface.
    pub interface_role_overrides: Vec<(String, String)>,
    /// Data directory for time-series storage (server and service modes).
    pub data_dir: Option<String>,
    /// Listen address for the HTTP server (server and service modes).
    pub listen: Option<String>,
}

/// The push interval used when the config names none.
pub fn default_interval() -> (r: u64)
    ensures
        r == 5,
{
    5
}

impl Default for CollectorConfig {
    fn default() -> (r: Self)
        ensures
            r.server_url@ == Seq::<char>::empty(),
            r.interval_secs == 5,
            !r.mock,
            r.hostname is None,
            r.labels@.len() == 0,
            r.inference_servers@.len() == 0,
            r.interface_role_overrides@.len() == 0,
            r.data_dir is None,
            r.listen is None,
    {
        CollectorConfig {
            server_url: String::new(),
            interval_secs: default_interval(),
            mock: false,
            hostname: None,
            labels: Vec::new(),
            inference_servers: Vec::new(),
            interface_role_overrides: Vec::new(),
            data_dir: None,
            listen: None,
        }
    }
}

/// Why a mode cannot start from its configuration.
#[derive(Debug, Clone, Copy, PartialEq, Eq, Structural)]
pub enum ConfigError {
    /// Neither the command line nor the config file names a data directory.
    MissingDataDir,
}

impl ConfigError {
    /// The message shown for the error.
    pub open spec fn spec_message(self) -> Seq<char> {
        match self {
            ConfigError::MissingDataDir => "no data directory given; pass --data-dir <path> or set data_dir in the config file"@,
        }
    }

    /// The message shown for the error.
    pub fn message(&self) -> (r: String)
        ensures
            r@ == self.spec_message(),
    {
        match self {
            ConfigError::MissingDataDir => owned(
                "no data directory given; pass --data-dir <path> or set data_dir in the config file",
            ),
        }
    }
}

/// The data directory: the command line's, else the config file's.
pub fn resolve_data_dir(cli: Option<String>, cfg: Option<&str>) -> (r: Result<String, ConfigError>)
    ensures
        cli matches Some(d) ==> r matches Ok(x) && x@ == d@,
        cli is None ==> (cfg matches Some(d) ==> r matches Ok(x) && x@ == d@),
        cli is None && cfg is None ==> r == Err::<String, ConfigError>(ConfigError::MissingDataDir),
{
    if let Some(dir) = cli {
        return Ok(dir);
    }
    if let Some(dir) = cfg {
        return Ok(owned(dir));
    }
    Err(ConfigError::MissingDataDir)
}

/// The listen address: the command line's, else the config file's, else
/// `0.0.0.0:9401`.
pub fn resolve_listen(cli: Option<String>, cfg: Option<&str>) -> (r: String)
    ensures
        cli matches Some(a) ==> r@ == a@,
        cli is None ==> (cfg matches Some(a) ==> r@ == a@),
        cli is None && cfg is None ==> r@ == "0.0.0.0:9401"@,
{
    match cli {
        Some(a) => a,
        None => match cfg {
            Some(a) => owned(a),
            None => owned("0.0.0.0:9401"),
        },
    }
}

/// The value that the label list `s` gives `k`: the last entry for `k`
/// wins, as when the entries are inserted into a map in order.
pub open spec fn label_get(s: Seq<(Seq<char>, Seq<char>)>, k: Seq<char>) -> Option<Seq<char>>
    decreases s.len(),
{
    if s.len() == 0 {
        None
    } else if s.last().0 == k {
        Some(s.last().1)
    } else {
        label_get(s.drop_last(), k)
    }
}

/// The value that `entries` gives `key`, the last entry for it winning.
pub fn lookup_label(entries: &Vec<(String, String)>, key: &String) -> (r: Option<String>)
    ensures
        r matches Some(v) ==> label_get(pair_views(entries@), key@) == Some(v@),
        r is None ==> label_get(pair_views(entries@), key@) is None,
{
    let ghost pv = pair_views(entries@);
    let mut i = entries.len();
    assert(pv.take(i as int) =~= pv);
    while i > 0
        invariant
            i <= entries@.len(),
            pv == pair_views(entries@),
            label_get(pv, key@) == label_get(pv.take(i as int), key@),
        decreases i,
    {
        assert(pv.take(i as int).drop_last() =~= pv.take(i - 1));
        assert(pv.take(i as int).last() == pv[i - 1]);
        if entries[i - 1].0 == *key {
            return Some(entries[i - 1].1.clone());
        }
        i = i - 1;
    }
    None
}

/// `s` with `k` mapped to `v`: the entry for `k` replaced in place, or
/// added at the end when there is none.
pub open spec fn label_set(s: Seq<(Seq<char>, Seq<char>)>, k: Seq<char>, v: Seq<char>) -> Seq<
    (Seq<char>, Seq<char>),
> {
    if exists|i: int| 0 <= i < s.len() && s[i].0 == k {
        s.map_values(
            |e: (Seq<char>, Seq<char>)|
                if e.0 == k {
                    (k, v)
                } else {
                    e
                },
        )
    } else {
        s.push((k, v))
    }
}

/// Map `key` to `value` in `entries`.
#[verifier::loop_isolation(false)]
pub fn set_label(entries: &mut Vec<(String, String)>, key: &String, value: &String)
    ensures
        pair_views(final(entries)@) == label_set(pair_views(old(entries)@), key@, value@),
        keys_distinct(old(entries)@) ==> keys_distinct(final(entries)@),
{
    let ghost pv = pair_views(entries@);
    let ghost f = |e: (Seq<char>, Seq<char>)|
        if e.0 == key@ {
            (key@, value@)
        } else {
            e
        };
    let mut found = false;
    let mut i: usize = 0;
    while i < entries.len()
        invariant
            i <= entries@.len(),
            entries@.len() == pv.len(),
            forall|j: int| i <= j < entries@.len() ==> #[trigger] pair_views(entries@)[j] == pv[j],
            forall|j: int| 0 <= j < i ==> #[trigger] pair_views(entries@)[j] == f(pv[j]),
            found == exists|j: int| 0 <= j < i && pv[j].0 == key@,
        decreases entries.len() - i,
    {
        assert(pair_views(entries@)[i as int] == pv[i as int]);
        if entries[i].0 == *key {
            let ghost before = entries@;
            entries.set(i, (key.clone(), value.clone()));
            assert forall|j: int| 0 <= j < entries@.len() && j != i implies #[trigger] pair_views(
                entries@,
            )[j] == pair_views(before)[j] by {
                assert(entries@[j] == before[j]);
            }
            found = true;
        }
        i = i + 1;
    }
    if found {
        assert(pair_views(entries@) =~= pv.map_values(f));
        assert forall|j: int| 0 <= j < entries@.len() implies #[trigger] entries@[j].0@ == old(
            entries,
        )@[j].0@ by {
            assert(pair_views(entries@)[j] == f(pv[j]));
        }
        proof {
            if keys_distinct(old(entries)@) {
                assert forall|a: int, b: int| 0 <= a < b < entries@.len() implies entries@[a].0@
                    != entries@[b].0@ by {
                    assert(entries@[a].0@ == old(entries)@[a].0@);
                    assert(entries@[b].0@ == old(entries)@[b].0@);
                }
            }
        }
    } else {
        let ghost before = entries@;
        entries.push((key.clone(), value.clone()));
        assert(before.len() == pv.len());
        assert(pair_views(before) =~= pv);
        assert(pair_views(entries@) =~= pv.push((key@, value@)));
        assert forall|j: int| 0 <= j < before.len() implies #[trigger] entries@[j].0@ != key@ by {
            assert(pv[j].0 == before[j].0@);
        }
        proof {
            if keys_distinct(old(entries)@) {
                assert forall|a: int, b: int| 0 <= a < b < entries@.len() implies entries@[a].0@
                    != entries@[b].0@ by {
                    assert(pv[a].0 == before[a].0@);
                    assert(pair_views(old(entries)@)[a].0 == old(entries)@[a].0@);
                    if b < before.len() {
                        assert(pv[b].0 == before[b].0@);
                        assert(pair_views(old(entries)@)[b].0 == old(entries)@[b].0@);
                    }
                }
            }
        }
    }
}

/// The role of an interface once `overrides` apply: the override named for
/// it, else its own.
pub open spec fn overridden_role(n: NetSample, overrides: Seq<(Seq<char>, Seq<char>)>) -> Seq<char> {
    match label_get(overrides, n.interface@) {
        Some(r) => r,
        None => n.role@,
    }
}

/// `n2` is `n` with only its role possibly changed.
pub open spec fn same_but_role(n: NetSample, n2: NetSample) -> bool {
    &&& n2.interface == n.interface
    &&& n2.rx_bytes == n.rx_bytes
    &&& n2.tx_bytes == n.tx_bytes
    &&& n2.rx_packets == n.rx_packets
    &&& n2.tx_packets == n.tx_packets
    &&& n2.speed_mbps == n.speed_mbps
    &&& n2.up == n.up
}

/// `h2` holds the same host-wide readings as `h`.
pub open spec fn same_host_readings(h: HostSample, h2: HostSample) -> bool {
    &&& h2.cpu_usage_pct == h.cpu_usage_pct
    &&& h2.memory_used_mb == h.memory_used_mb
    &&& h2.memory_total_mb == h.memory_total_mb
    &&& h2.disk_used_gb == h.disk_used_gb
    &&& h2.disk_total_gb == h.disk_total_gb
    &&& h2.network_rx_bytes == h.network_rx_bytes
    &&& h2.network_tx_bytes == h.network_tx_bytes
    &&& h2.uptime_seconds == h.uptime_seconds
}

/// Apply per-interface role overrides from config.
pub fn apply_role_overrides(snap: &mut Snapshot, overrides: &Vec<(String, String)>)
    ensures
        final(snap).timestamp == old(snap).timestamp,
        final(snap).gpus == old(snap).gpus,
        final(snap).inference == old(snap).inference,
        final(snap).extra == old(snap).extra,
        final(snap).host.hostname == old(snap).host.hostname,
        same_host_readings(old(snap).host, final(snap).host),
        final(snap).host.cpu_cores == old(snap).host.cpu_cores,
        final(snap).host.networks@.len() == old(snap).host.networks@.len(),
        forall|i: int|
            0 <= i < final(snap).host.networks@.len() ==> {
                let n = old(snap).host.networks@[i];
                let n2 = #[trigger] final(snap).host.networks@[i];
                &&& same_but_role(n, n2)
                &&& n2.role@ == overridden_role(n, pair_views(overrides@))
            },
{
    let mut nets: Vec<NetSample> = Vec::new();
    std::mem::swap(&mut nets, &mut snap.host.networks);
    let ghost old_nets = nets@;
    let mut i: usize = 0;
    while i < nets.len()
        invariant
            i <= nets@.len(),
            nets@.len() == old_nets.len(),
            forall|j: int| i <= j < nets@.len() ==> #[trigger] nets@[j] == old_nets[j],
            forall|j: int|
                0 <= j < i ==> {
                    let n = old_nets[j];
                    let n2 = #[trigger] nets@[j];
                    &&& same_but_role(n, n2)
                    &&& n2.role@ == overridden_role(n, pair_views(overrides@))
                },
        decreases nets.len() - i,
    {
        let found = lookup_label(overrides, &nets[i].interface);
        if let Some(role) = found {
            let ghost before = nets@;
            nets[i].role = role;
            assert forall|j: int| 0 <= j < nets@.len() && j != i implies #[trigger] nets@[j]
                == before[j] by {}
        }
        i = i + 1;
    }
    snap.host.networks = nets;
}

/// The snapshot labels once an agent's config applies: each configured
/// label set in turn.
pub open spec fn labels_applied(
    extra: Seq<(Seq<char>, Seq<char>)>,
    labels: Seq<(Seq<char>, Seq<char>)>,
) -> Seq<(Seq<char>, Seq<char>)>
    decreases labels.len(),
{
    if labels.len() == 0 {
        extra
    } else {
        let e = labels_applied(extra, labels.drop_last());
        label_set(e, labels.last().0, labels.last().1)
    }
}

/// Apply a push agent's config to a fresh snapshot: the configured hostname
/// replaces the collected one, and the configured labels are merged into
/// the snapshot's extra labels (a configured label replaces one of the same
/// name).
pub fn apply_agent_config(
    snap: &mut Snapshot,
    hostname_override: &Option<String>,
    labels: &Vec<(String, String)>,
)
    ensures
        final(snap).timestamp == old(snap).timestamp,
        final(snap).gpus == old(snap).gpus,
        final(snap).inference == old(snap).inference,
        final(snap).host.networks == old(snap).host.networks,
        final(snap).host.cpu_cores == old(snap).host.cpu_cores,
        same_host_readings(old(snap).host, final(snap).host),
        final(snap).host.hostname@ == (match hostname_override {
            Some(h) => h@,
            None => old(snap).host.hostname@,
        }),
        pair_views(final(snap).extra@) == labels_applied(pair_views(old(snap).extra@), pair_views(labels@)),
        old(snap).extra_distinct() ==> final(snap).extra_distinct(),
{
    if let Some(h) = hostname_override {
        snap.host.hostname = h.clone();
    }
    let mut extra: Vec<(String, String)> = Vec::new();
    std::mem::swap(&mut extra, &mut snap.extra);
    let ghost start = pair_views(extra@);
    let mut i: usize = 0;
    while i < labels.len()
        invariant
            i <= labels@.len(),
            pair_views(extra@) == labels_applied(start, pair_views(labels@).take(i as int)),
            keys_distinct(old(snap).extra@) ==> keys_distinct(extra@),
        decreases labels.len() - i,
    {
        set_label(&mut extra, &labels[i].0, &labels[i].1);
        assert(pair_views(labels@).take(i + 1).drop_last() =~= pair_views(labels@).take(i as int));
        i = i + 1;
    }
    assert(pair_views(labels@).take(labels@.len() as int) =~= pair_views(labels@));
    snap.extra = extra;
}

} // verus!
