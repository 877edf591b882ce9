//! Multi-node in-memory store of the latest snapshot per host.
//!
//! Used by both `server` and `service` modes. Holds the latest snapshot
//! per hostname for fast Prometheus scraping and JSON listing.
use vstd::prelude::*;

use crate::collector::{Snapshot, Timestamp};
use crate::table::{entries_map, keys_distinct, put_in_place, HostTable};

verus! {

/// The snapshot kept for `hostname`, if it has reported.
pub open spec fn kept(store: Map<Seq<char>, Snapshot>, hostname: Seq<char>) -> Option<Snapshot> {
    if store.contains_key(hostname) {
        Some(store[hostname])
    } else {
        None
    }
}

/// Multi-node in-memory store of the latest snapshot per host.
pub struct NodeStore {
    nodes: HostTable<Snapshot>,
}

/// One line of the node listing.
#[derive(Clone, Debug)]
pub struct NodeInfo {
    pub hostname: String,
    pub gpus: u32,
    pub timestamp: Timestamp,
}

impl View for NodeStore {
    type V = Map<Seq<char>, Snapshot>;

    closed spec fn view(&self) -> Map<Seq<char>, Snapshot> {
        self.nodes@
    }
}

impl NodeStore {
    #[verifier::type_invariant]
    closed spec fn inv(self) -> bool {
        self.nodes.wf()
    }

    /// The kept (hostname, snapshot) entries, each host once, in the order in
    /// which the hosts first reported.
    pub closed spec fn listing(&self) -> Seq<(String, Snapshot)> {
        self.nodes.entries_seq()
    }

    /// The listing is the store, host by host.
    pub proof fn lemma_listing(&self)
        ensures
            entries_map(self.listing()) == self@,
    {
    }

    /// An empty store.
    pub fn new() -> (r: Self)
        ensures
            r@ == Map::<Seq<char>, Snapshot>::empty(),
            r.listing().len() == 0,
    {
        NodeStore { nodes: HostTable::new() }
    }

    /// Keep `snap` as the latest snapshot of `hostname`, replacing the one
    /// kept before.
    pub fn put(&mut self, hostname: String, snap: Snapshot)
        ensures
            final(self)@ == old(self)@.insert(hostname@, snap),
            put_in_place(old(self).listing(), final(self).listing(), hostname, snap),
    {
        proof {
            use_type_invariant(&*self);
        }
        let mut nodes = HostTable::new();
        std::mem::swap(&mut nodes, &mut self.nodes);
        nodes.insert(hostname, snap);
        self.nodes = nodes;
    }

    /// The latest snapshot of `hostname`, if it has reported.
    pub fn get(&self, hostname: &str) -> (r: Option<&Snapshot>)
        ensures
            match r {
                Some(s) => kept(self@, hostname@) == Some(*s),
                None => kept(self@, hostname@) is None,
            },
    {
        proof {
            use_type_invariant(self);
        }
        self.nodes.get(hostname)
    }

    /// Every kept snapshot, one per host, in listing order.
    pub fn all(&self) -> (r: Vec<&Snapshot>)
        ensures
            keys_distinct(self.listing()),
            r@.len() == self.listing().len(),
            forall|i: int| 0 <= i < r@.len() ==> *r@[i] == self.listing()[i].1,
    {
        proof {
            use_type_invariant(self);
        }
        let entries = self.nodes.entries();
        let mut out: Vec<&Snapshot> = Vec::new();
        let mut i: usize = 0;
        while i < entries.len()
            invariant
                i <= entries@.len(),
                entries@ == self.listing(),
                out@.len() == i,
                forall|j: int| 0 <= j < i ==> *out@[j] == self.listing()[j].1,
            decreases entries.len() - i,
        {
            out.push(&entries[i].1);
            i = i + 1;
        }
        out
    }

    /// Hostname, GPU count and timestamp of every kept snapshot, one per
    /// host, in listing order.
    pub fn node_list(&self) -> (r: Vec<NodeInfo>)
        ensures
            keys_distinct(self.listing()),
            r@.len() == self.listing().len(),
            forall|i: int|
                0 <= i < r@.len() ==> {
                    let e = #[trigger] self.listing()[i];
                    &&& r@[i].hostname@ == e.0@
                    &&& r@[i].gpus == e.1.gpus@.len() as u32
                    &&& r@[i].timestamp == e.1.timestamp
                },
    {
        proof {
            use_type_invariant(self);
        }
        let entries = self.nodes.entries();
        let mut out: Vec<NodeInfo> = Vec::new();
        let mut i: usize = 0;
        while i < entries.len()
            invariant
                i <= entries@.len(),
                entries@ == self.listing(),
                out@.len() == i,
                forall|j: int|
                    0 <= j < i ==> {
                        let e = #[trigger] self.listing()[j];
                        &&& out@[j].hostname@ == e.0@
                        &&& out@[j].gpus == e.1.gpus@.len() as u32
                        &&& out@[j].timestamp == e.1.timestamp
                    },
            decreases entries.len() - i,
        {
            let (host, snap) = &entries[i];
            out.push(
                NodeInfo {
                    hostname: host.clone(),
                    gpus: snap.gpus.len() as u32,
                    timestamp: snap.timestamp,
                },
            );
            i = i + 1;
        }
        out
    }

    /// Whether some kept snapshot reports `hostname` as its host name.
    pub fn knows_host(&self, hostname: &str) -> (r: bool)
        ensures
            r == exists|i: int|
                0 <= i < self.listing().len() && #[trigger] self.listing()[i].1.host.hostname@
                    == hostname@,
    {
        proof {
            use_type_invariant(self);
        }
        let entries = self.nodes.entries();
        let key = String::from_str(hostname);
        let mut i: usize = 0;
        while i < entries.len()
            invariant
                i <= entries@.len(),
                entries@ == self.listing(),
                key@ == hostname@,
                forall|j: int| 0 <= j < i ==> #[trigger] self.listing()[j].1.host.hostname@ != hostname@,
            decreases entries.len() - i,
        {
            if entries[i].1.host.hostname == key {
                assert(self.listing()[i as int].1.host.hostname@ == hostname@);
                return true;
            }
            i = i + 1;
        }
        false
    }
}

impl Default for NodeStore {
    fn default() -> (r: Self)
        ensures
            r@ == Map::<Seq<char>, Snapshot>::empty(),
    {
        NodeStore::new()
    }
}

} // verus!
