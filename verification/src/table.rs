//! A table keyed by host name, holding at most one value per host.
//!
//! The entries are kept in a vector whose keys never repeat, and the table
//! is viewed as a map from the key's chars to the value.
use vstd::prelude::*;

verus! {

/// The map that a list of distinct-keyed entries stands for.
pub open spec fn entries_map<V>(s: Seq<(String, V)>) -> Map<Seq<char>, V>
    decreases s.len(),
{
    if s.len() == 0 {
        Map::empty()
    } else {
        entries_map(s.drop_last()).insert(s.last().0@, s.last().1)
    }
}

/// `after` is `before` with the entry of `host` replaced in place by
/// `(host, v)`, or, when `host` has no entry, with `(host, v)` added at the
/// end.
pub open spec fn put_in_place<V>(before: Seq<(String, V)>, after: Seq<(String, V)>, host: String, v: V) -> bool {
    if exists|i: int| 0 <= i < before.len() && before[i].0@ == host@ {
        exists|i: int| 0 <= i < before.len() && before[i].0@ == host@ && after == before.update(i, (host, v))
    } else {
        after == before.push((host, v))
    }
}

/// No key occurs twice in `s`.
pub open spec fn keys_distinct<V>(s: Seq<(String, V)>) -> bool {
    forall|i: int, j: int| 0 <= i < j < s.len() ==> s[i].0@ != s[j].0@
}

/// With distinct keys, the map has one key per entry and gives each entry's
/// key its value.
pub proof fn lemma_entries_map<V>(s: Seq<(String, V)>)
    requires
        keys_distinct(s),
    ensures
        entries_map(s).dom().finite(),
        entries_map(s).len() == s.len(),
        forall|k: Seq<char>| #[trigger]
            entries_map(s).contains_key(k) <==> exists|i: int| 0 <= i < s.len() && s[i].0@ == k,
        forall|i: int| 0 <= i < s.len() ==> #[trigger] entries_map(s)[s[i].0@] == s[i].1,
    decreases s.len(),
{
    if s.len() > 0 {
        let t = s.drop_last();
        lemma_entries_map(t);
        let m = entries_map(t);
        assert(!m.contains_key(s.last().0@)) by {
            if m.contains_key(s.last().0@) {
                let i = choose|i: int| 0 <= i < t.len() && t[i].0@ == s.last().0@;
                assert(s[i].0@ == s[s.len() - 1].0@);
            }
        }
        assert forall|k: Seq<char>| #[trigger]
            entries_map(s).contains_key(k) <==> exists|i: int| 0 <= i < s.len() && s[i].0@ == k by {
            if entries_map(s).contains_key(k) && k != s.last().0@ {
                let i = choose|i: int| 0 <= i < t.len() && t[i].0@ == k;
                assert(s[i].0@ == k);
            }
            if exists|i: int| 0 <= i < s.len() && s[i].0@ == k {
                let i = choose|i: int| 0 <= i < s.len() && s[i].0@ == k;
                if i < s.len() - 1 {
                    assert(t[i].0@ == k);
                }
            }
        }
        assert forall|i: int| 0 <= i < s.len() implies #[trigger] entries_map(s)[s[i].0@] == s[i].1 by {
            if i < s.len() - 1 {
                assert(t[i] == s[i]);
                assert(s[i].0@ != s.last().0@);
            }
        }
    }
}

/// Entries keyed by host name, one per host.
pub struct HostTable<V> {
    entries: Vec<(String, V)>,
}

impl<V> HostTable<V> {
    /// The entries, in the order in which their hosts were first inserted.
    pub closed spec fn entries_seq(&self) -> Seq<(String, V)> {
        self.entries@
    }

    /// The table as a map from host name to value.
    pub open spec fn view(&self) -> Map<Seq<char>, V> {
        entries_map(self.entries_seq())
    }

    /// No host has two entries.
    pub closed spec fn wf(&self) -> bool {
        keys_distinct(self.entries@)
    }

    pub proof fn lemma_view(&self)
        requires
            self.wf(),
        ensures
            keys_distinct(self.entries_seq()),
            self@.dom().finite(),
            self@.len() == self.entries_seq().len(),
            forall|k: Seq<char>| #[trigger]
                self@.contains_key(k) <==> exists|i: int|
                    0 <= i < self.entries_seq().len() && self.entries_seq()[i].0@ == k,
            forall|i: int|
                0 <= i < self.entries_seq().len() ==> #[trigger] self@[self.entries_seq()[i].0@]
                    == self.entries_seq()[i].1,
    {
        lemma_entries_map(self.entries@);
    }

    /// An empty table.
    pub fn new() -> (r: Self)
        ensures
            r.wf(),
            r@ == Map::<Seq<char>, V>::empty(),
            r.entries_seq().len() == 0,
    {
        HostTable { entries: Vec::new() }
    }

    /// The number of hosts in the table.
    pub fn len(&self) -> (r: usize)
        requires
            self.wf(),
        ensures
            r == self.entries_seq().len(),
            r == self@.len(),
    {
        proof {
            self.lemma_view();
        }
        self.entries.len()
    }

    /// The entries, one per host.
    pub fn entries(&self) -> (r: &Vec<(String, V)>)
        requires
            self.wf(),
        ensures
            r@ == self.entries_seq(),
            keys_distinct(r@),
    {
        &self.entries
    }

    /// The entries, one per host, taken out of the table.
    pub fn into_entries(self) -> (r: Vec<(String, V)>)
        requires
            self.wf(),
        ensures
            r@ == self.entries_seq(),
            keys_distinct(r@),
    {
        self.entries
    }

    /// The position of `host`'s entry.
    pub fn position(&self, host: &str) -> (r: Option<usize>)
        requires
            self.wf(),
        ensures
            r matches Some(i) ==> i < self.entries_seq().len() && self.entries_seq()[i as int].0@
                == host@,
            r is None <==> !self@.contains_key(host@),
    {
        proof {
            self.lemma_view();
        }
        let key = String::from_str(host);
        let mut i: usize = 0;
        while i < self.entries.len()
            invariant
                i <= self.entries@.len(),
                self.wf(),
                key@ == host@,
                forall|j: int| 0 <= j < i ==> self.entries@[j].0@ != host@,
            decreases self.entries.len() - i,
        {
            if self.entries[i].0 == key {
                proof {
                    self.lemma_view();
                    assert(self.entries_seq()[i as int].0@ == host@);
                }
                return Some(i);
            }
            i = i + 1;
        }
        None
    }

    /// The value kept for `host`, if any.
    pub fn get(&self, host: &str) -> (r: Option<&V>)
        requires
            self.wf(),
        ensures
            r matches Some(v) ==> self@.contains_key(host@) && *v == self@[host@],
            r is None <==> !self@.contains_key(host@),
    {
        proof {
            self.lemma_view();
        }
        match self.position(host) {
            Some(i) => Some(&self.entries[i].1),
            None => None,
        }
    }

    /// Keep `v` for `host`, replacing what was kept for it before.
    pub fn insert(&mut self, host: String, v: V)
        requires
            old(self).wf(),
        ensures
            final(self).wf(),
            final(self)@ == old(self)@.insert(host@, v),
            put_in_place(old(self).entries_seq(), final(self).entries_seq(), host, v),
    {
        proof {
            self.lemma_view();
        }
        match self.position(host.as_str()) {
            Some(i) => {
                let mut entries = Vec::new();
                std::mem::swap(&mut entries, &mut self.entries);
                let ghost before = entries@;
                let ghost hv = (host, v);
                entries.set(i, (host, v));
                proof {
                    assert(entries@ == before.update(i as int, hv));
                    assert(before[i as int].0@ == hv.0@);
                    assert(keys_distinct(entries@)) by {
                        assert forall|a: int, b: int| 0 <= a < b < entries@.len() implies entries@[a].0@
                            != entries@[b].0@ by {
                            if a != i && b != i {
                                assert(entries@[a] == before[a]);
                                assert(entries@[b] == before[b]);
                            } else if a == i {
                                assert(entries@[b] == before[b]);
                            } else {
                                assert(entries@[a] == before[a]);
                            }
                        }
                    }
                    lemma_entries_map(entries@);
                    lemma_entries_map(before);
                    let m_old = entries_map(before);
                    let m_new = entries_map(entries@);
                    assert forall|k: Seq<char>| #[trigger] m_new.contains_key(k) <==> m_old.insert(
                        host@,
                        v,
                    ).contains_key(k) by {
                        if k == host@ {
                            assert(entries@[i as int].0@ == host@);
                        }
                        if m_old.contains_key(k) && k != host@ {
                            let j = choose|j: int| 0 <= j < before.len() && before[j].0@ == k;
                            assert(entries@[j].0@ == k);
                        }
                        if m_new.contains_key(k) && k != host@ {
                            let j = choose|j: int| 0 <= j < entries@.len() && entries@[j].0@ == k;
                            assert(before[j].0@ == k);
                        }
                    }
                    assert forall|k: Seq<char>| #[trigger] m_new.contains_key(k) implies m_new[k]
                        == m_old.insert(host@, v)[k] by {
                        let j = choose|j: int| 0 <= j < entries@.len() && entries@[j].0@ == k;
                        if j != i {
                            assert(before[j] == entries@[j]);
                        }
                    }
                    assert(m_new =~= m_old.insert(host@, v));
                }
                self.entries = entries;
            },
            None => {
                let mut entries = Vec::new();
                std::mem::swap(&mut entries, &mut self.entries);
                let ghost before = entries@;
                let ghost hv = (host, v);
                entries.push((host, v));
                proof {
                    assert(entries@ == before.push(hv));
                    assert(!exists|j: int| 0 <= j < before.len() && before[j].0@ == hv.0@);
                    assert(entries@.drop_last() =~= before);
                    assert(keys_distinct(entries@)) by {
                        assert forall|a: int, b: int| 0 <= a < b < entries@.len() implies entries@[a].0@
                            != entries@[b].0@ by {
                            if b == before.len() {
                                assert(entries@[a] == before[a]);
                            } else {
                                assert(entries@[a] == before[a]);
                                assert(entries@[b] == before[b]);
                            }
                        }
                    }
                }
                self.entries = entries;
            },
        }
    }

    /// Drop `host`'s entry and hand back its value, if there was one.
    pub fn remove(&mut self, host: &str) -> (r: Option<V>)
        requires
            old(self).wf(),
        ensures
            final(self).wf(),
            final(self)@ == old(self)@.remove(host@),
            r matches Some(v) ==> old(self)@.contains_key(host@) && v == old(self)@[host@],
            r is None <==> !old(self)@.contains_key(host@),
    {
        proof {
            self.lemma_view();
        }
        match self.position(host) {
            Some(i) => {
                let mut entries = Vec::new();
                std::mem::swap(&mut entries, &mut self.entries);
                let ghost before = entries@;
                let (_k, v) = entries.remove(i);
                proof {
                    assert(keys_distinct(entries@)) by {
                        assert forall|a: int, b: int| 0 <= a < b < entries@.len() implies entries@[a].0@
                            != entries@[b].0@ by {
                            let a2 = if a < i { a } else { a + 1 };
                            let b2 = if b < i { b } else { b + 1 };
                            assert(entries@[a] == before[a2]);
                            assert(entries@[b] == before[b2]);
                        }
                    }
                    lemma_entries_map(entries@);
                    lemma_entries_map(before);
                    let m_old = entries_map(before);
                    let m_new = entries_map(entries@);
                    assert forall|k: Seq<char>| #[trigger] m_new.contains_key(k) <==> m_old.remove(
                        host@,
                    ).contains_key(k) by {
                        if m_old.contains_key(k) && k != host@ {
                            let j = choose|j: int| 0 <= j < before.len() && before[j].0@ == k;
                            assert(j != i);
                            if j < i {
                                assert(entries@[j].0@ == k);
                            } else {
                                assert(entries@[j - 1].0@ == k);
                            }
                        }
                        if m_new.contains_key(k) {
                            let j = choose|j: int| 0 <= j < entries@.len() && entries@[j].0@ == k;
                            let j2 = if j < i { j } else { j + 1 };
                            assert(before[j2].0@ == k);
                            assert(j2 != i);
                        }
                    }
                    assert forall|k: Seq<char>| #[trigger] m_new.contains_key(k) implies m_new[k]
                        == m_old.remove(host@)[k] by {
                        let j = choose|j: int| 0 <= j < entries@.len() && entries@[j].0@ == k;
                        let j2 = if j < i { j } else { j + 1 };
                        assert(before[j2] == entries@[j]);
                    }
                    assert(m_new =~= m_old.remove(host@));
                }
                self.entries = entries;
                Some(v)
            },
            None => {
                proof {
                    assert(self@ =~= old(self)@.remove(host@));
                }
                None
            },
        }
    }
}

} // verus!
