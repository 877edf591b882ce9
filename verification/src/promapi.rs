//! The decisions behind the Prometheus-compatible HTTP API: the label map of
//! a result, the label names and values of the stored series, and the
//! checks on a batch of queries.
use vstd::prelude::*;

use crate::config::label_get;
use crate::order::{sorted_unique, strictly_sorted, text_less, text_lt};
use crate::storage::pair_views;
use crate::text::{append_str, chars_of, owned, views};

verus! {

broadcast use vstd::seq_lib::group_seq_properties;

/// The keys of a label list.
pub open spec fn label_keys(s: Seq<(Seq<char>, Seq<char>)>) -> Seq<Seq<char>> {
    s.map_values(|e: (Seq<char>, Seq<char>)| e.0)
}

proof fn lemma_label_get_sorted(s: Seq<(Seq<char>, Seq<char>)>, k: Seq<char>)
    requires
        strictly_sorted(label_keys(s)),
    ensures
        forall|i: int| 0 <= i < s.len() && s[i].0 == k ==> label_get(s, k) == Some(s[i].1),
        (forall|i: int| 0 <= i < s.len() ==> s[i].0 != k) ==> label_get(s, k) is None,
    decreases s.len(),
{
    if s.len() > 0 {
        let t = s.drop_last();
        assert(strictly_sorted(label_keys(t))) by {
            assert forall|a: int, b: int| 0 <= a < b < label_keys(t).len() implies text_lt(
                #[trigger] label_keys(t)[a],
                #[trigger] label_keys(t)[b],
            ) by {
                assert(label_keys(t)[a] == label_keys(s)[a]);
                assert(label_keys(t)[b] == label_keys(s)[b]);
            }
        }
        lemma_label_get_sorted(t, k);
        assert forall|i: int| 0 <= i < s.len() && s[i].0 == k implies label_get(s, k) == Some(
            s[i].1,
        ) by {
            if i < s.len() - 1 && s.last().0 == k {
                assert(text_lt(label_keys(s)[i], label_keys(s)[s.len() - 1]));
                crate::order::lemma_text_lt_irreflexive(k);
            }
            if i < s.len() - 1 {
                assert(t[i] == s[i]);
            }
        }
    }
}

proof fn lemma_label_get_push(s: Seq<(Seq<char>, Seq<char>)>, e: (Seq<char>, Seq<char>), k: Seq<char>)
    ensures
        label_get(s.push(e), k) == (if e.0 == k {
            Some(e.1)
        } else {
            label_get(s, k)
        }),
{
    assert(s.push(e).drop_last() =~= s);
}

/// The label map of a result: `__name__` is the metric, then each label in
/// turn (a later label replaces an earlier one of the same name); as a
/// `BTreeMap`, it is kept sorted by name.
pub open spec fn spec_metric_map(metric: Seq<char>, labels: Seq<(Seq<char>, Seq<char>)>) -> Seq<
    (Seq<char>, Seq<char>),
> {
    seq![("__name__"@, metric)] + labels
}

/// Build the metric label map, including `__name__`, sorted by label name
/// with one entry per name.
pub fn metric_map(metric: &str, labels: &Vec<(String, String)>) -> (r: Vec<(String, String)>)
    ensures
        strictly_sorted(label_keys(pair_views(r@))),
        forall|k: Seq<char>|
            #[trigger] label_get(pair_views(r@), k) == label_get(
                spec_metric_map(metric@, pair_views(labels@)),
                k,
            ),
{
    let mut out: Vec<(String, String)> = Vec::new();
    out.push((owned("__name__"), owned(metric)));
    let ghost init = seq![("__name__"@, metric@)];
    assert(pair_views(out@) =~= init);
    let mut j: usize = 0;
    while j < labels.len()
        invariant
            j <= labels@.len(),
            init == seq![("__name__"@, metric@)],
            strictly_sorted(label_keys(pair_views(out@))),
            forall|k: Seq<char>|
                #[trigger] label_get(pair_views(out@), k) == label_get(
                    init + pair_views(labels@).take(j as int),
                    k,
                ),
        decreases labels.len() - j,
    {
        let (key, value) = &labels[j];
        let ghost prev = pair_views(out@);
        insert_sorted(&mut out, key, value);
        proof {
            let lv = pair_views(labels@);
            let x = init + lv.take(j as int);
            assert(lv[j as int] == (key@, value@));
            assert(init + lv.take(j + 1) =~= x.push((key@, value@)));
            assert forall|k: Seq<char>| #[trigger] label_get(pair_views(out@), k) == label_get(
                init + lv.take(j + 1),
                k,
            ) by {
                lemma_label_get_push(prev, (key@, value@), k);
                lemma_label_get_push(x, (key@, value@), k);
            }
        }
        j = j + 1;
    }
    assert(pair_views(labels@).take(labels@.len() as int) =~= pair_views(labels@));
    out
}

proof fn lemma_replace_at(
    ov: Seq<(Seq<char>, Seq<char>)>,
    nv: Seq<(Seq<char>, Seq<char>)>,
    p: int,
    key: Seq<char>,
    value: Seq<char>,
)
    requires
        strictly_sorted(label_keys(ov)),
        0 <= p < ov.len(),
        ov[p].0 == key,
        nv == ov.update(p, (key, value)),
    ensures
        strictly_sorted(label_keys(nv)),
        forall|k: Seq<char>| #[trigger] label_get(nv, k) == label_get(ov.push((key, value)), k),
{
    assert(label_keys(nv) =~= label_keys(ov));
    assert forall|k: Seq<char>| #[trigger] label_get(nv, k) == label_get(ov.push((key, value)), k) by {
        lemma_label_get_sorted(nv, k);
        lemma_label_get_sorted(ov, k);
        if k != key {
            assert(ov.push((key, value)).drop_last() =~= ov);
            if exists|i: int| 0 <= i < ov.len() && ov[i].0 == k {
                let i = choose|i: int| 0 <= i < ov.len() && ov[i].0 == k;
                assert(nv[i] == ov[i]);
            } else {
                assert forall|i: int| 0 <= i < nv.len() implies nv[i].0 != k by {
                    if i != p {
                        assert(nv[i] == ov[i]);
                    }
                }
            }
        } else {
            assert(nv[p] == (key, value));
        }
    }
}

proof fn lemma_insert_at(
    ov: Seq<(Seq<char>, Seq<char>)>,
    nv: Seq<(Seq<char>, Seq<char>)>,
    p: int,
    key: Seq<char>,
    value: Seq<char>,
)
    requires
        strictly_sorted(label_keys(ov)),
        0 <= p <= ov.len(),
        forall|j: int| 0 <= j < p ==> text_lt(#[trigger] ov[j].0, key),
        p < ov.len() ==> text_lt(key, ov[p].0),
        nv == ov.insert(p, (key, value)),
    ensures
        strictly_sorted(label_keys(nv)),
        forall|k: Seq<char>| #[trigger] label_get(nv, k) == label_get(ov.push((key, value)), k),
{
    assert forall|a: int, b: int| 0 <= a < b < nv.len() implies text_lt(
        #[trigger] label_keys(nv)[a],
        #[trigger] label_keys(nv)[b],
    ) by {
        if b < p {
            assert(label_keys(ov)[a] == nv[a].0 && label_keys(ov)[b] == nv[b].0);
        } else if b == p {
            assert(nv[a] == ov[a]);
        } else if a == p {
            assert(nv[b] == ov[b - 1]);
            if b - 1 > p {
                assert(text_lt(label_keys(ov)[p], label_keys(ov)[b - 1]));
                crate::order::lemma_text_lt_transitive(key, ov[p].0, ov[b - 1].0);
            }
        } else if a < p {
            assert(nv[a] == ov[a] && nv[b] == ov[b - 1]);
            assert(text_lt(label_keys(ov)[a], label_keys(ov)[b - 1]));
        } else {
            assert(nv[a] == ov[a - 1] && nv[b] == ov[b - 1]);
            assert(text_lt(label_keys(ov)[a - 1], label_keys(ov)[b - 1]));
        }
    }
    assert forall|k: Seq<char>| #[trigger] label_get(nv, k) == label_get(ov.push((key, value)), k) by {
        lemma_label_get_sorted(nv, k);
        lemma_label_get_sorted(ov, k);
        assert(nv[p] == (key, value));
        if k != key {
            assert(ov.push((key, value)).drop_last() =~= ov);
            if exists|i: int| 0 <= i < ov.len() && ov[i].0 == k {
                let i = choose|i: int| 0 <= i < ov.len() && ov[i].0 == k;
                if i < p {
                    assert(nv[i] == ov[i]);
                } else {
                    assert(nv[i + 1] == ov[i]);
                }
            } else {
                assert forall|i: int| 0 <= i < nv.len() implies nv[i].0 != k by {
                    if i < p {
                        assert(nv[i] == ov[i]);
                    } else if i > p {
                        assert(nv[i] == ov[i - 1]);
                    }
                }
            }
        } else {
            assert forall|i: int| 0 <= i < ov.len() implies ov[i].0 != key by {
                if i < p {
                    crate::order::lemma_text_lt_irreflexive(key);
                } else if i == p {
                    crate::order::lemma_text_lt_irreflexive(key);
                } else {
                    assert(text_lt(label_keys(ov)[p], label_keys(ov)[i]));
                    crate::order::lemma_text_lt_transitive(key, ov[p].0, ov[i].0);
                    crate::order::lemma_text_lt_irreflexive(key);
                }
            }
        }
    }
}

/// Map `key` to `value` in the name-sorted list `out`, keeping it sorted.
fn insert_sorted(out: &mut Vec<(String, String)>, key: &String, value: &String)
    requires
        strictly_sorted(label_keys(pair_views(old(out)@))),
    ensures
        strictly_sorted(label_keys(pair_views(final(out)@))),
        forall|k: Seq<char>|
            #[trigger] label_get(pair_views(final(out)@), k) == label_get(
                pair_views(old(out)@).push((key@, value@)),
                k,
            ),
{
    let ghost ov = pair_views(out@);
    let kc = chars_of(key.as_str());
    let mut p: usize = 0;
    while p < out.len() && text_less(&chars_of(out[p].0.as_str()), &kc)
        invariant
            p <= out@.len(),
            ov == pair_views(out@),
            kc@ == key@,
            forall|j: int| 0 <= j < p ==> text_lt(#[trigger] ov[j].0, key@),
        decreases out.len() - p,
    {
        p = p + 1;
    }
    if p < out.len() && out[p].0 == *key {
        out.set(p, (key.clone(), value.clone()));
        proof {
            assert(pair_views(out@) =~= ov.update(p as int, (key@, value@)));
            lemma_replace_at(ov, pair_views(out@), p as int, key@, value@);
        }
    } else {
        proof {
            if p < out@.len() {
                crate::order::lemma_text_lt_total(ov[p as int].0, key@);
            }
        }
        out.insert(p, (key.clone(), value.clone()));
        proof {
            assert(pair_views(out@) =~= ov.insert(p as int, (key@, value@)));
            lemma_insert_at(ov, pair_views(out@), p as int, key@, value@);
        }
    }
}

/// Some series in `series` carries a label named `name`.
pub open spec fn has_label_name(series: Seq<Seq<(String, String)>>, name: Seq<char>) -> bool {
    exists|i: int, j: int|
        0 <= i < series.len() && 0 <= j < series[i].len() && (#[trigger] series[i][j]).0@ == name
}

/// Some series in `series` carries label `name` with value `value`.
pub open spec fn has_label_value(series: Seq<Seq<(String, String)>>, name: Seq<char>, value: Seq<char>) -> bool {
    exists|i: int, j: int|
        0 <= i < series.len() && 0 <= j < series[i].len() && (#[trigger] series[i][j]).0@ == name
            && series[i][j].1@ == value
}

/// The label sets of a list of series, as sequences.
pub open spec fn label_sets(series: Seq<Vec<(String, String)>>) -> Seq<Seq<(String, String)>> {
    series.map_values(|v: Vec<(String, String)>| v@)
}

/// All label names: `__name__` and every name that a series carries,
/// sorted, each once.
pub fn label_names(series: &Vec<Vec<(String, String)>>) -> (r: Vec<String>)
    ensures
        strictly_sorted(views(r@)),
        forall|x: Seq<char>| #[trigger]
            views(r@).contains(x) <==> (x == "__name__"@ || has_label_name(label_sets(series@), x)),
{
    let mut names: Vec<String> = Vec::new();
    names.push(owned("__name__"));
    let ghost ls = label_sets(series@);
    proof {
        assert(views(names@) =~= seq!["__name__"@]);
        assert forall|x: Seq<char>| views(names@).contains(x) <==> x == "__name__"@ by {
            if x == "__name__"@ {
                assert(views(names@)[0] == x);
            }
        }
    }
    let mut i: usize = 0;
    while i < series.len()
        invariant
            i <= series@.len(),
            ls == label_sets(series@),
            forall|x: Seq<char>|
                views(names@).contains(x) <==> (x == "__name__"@ || exists|a: int, b: int|
                    0 <= a < i && 0 <= b < ls[a].len() && (#[trigger] ls[a][b]).0@ == x),
        decreases series.len() - i,
    {
        let mut j: usize = 0;
        while j < series[i].len()
            invariant
                i < series@.len(),
                j <= series@[i as int]@.len(),
                ls == label_sets(series@),
                forall|x: Seq<char>|
                    views(names@).contains(x) <==> (x == "__name__"@ || (exists|a: int, b: int|
                        0 <= a < i && 0 <= b < ls[a].len() && (#[trigger] ls[a][b]).0@ == x) || (
                    exists|b: int| 0 <= b < j && (#[trigger] ls[i as int][b]).0@ == x)),
            decreases series@[i as int]@.len() - j,
        {
            let ghost before = views(names@);
            names.push(series[i][j].0.clone());
            proof {
                assert(views(names@) =~= before.push(ls[i as int][j as int].0@));
                assert forall|x: Seq<char>| views(names@).contains(x) <==> (before.contains(x) || x
                    == ls[i as int][j as int].0@) by {
                    if views(names@).contains(x) {
                        let k = choose|k: int| 0 <= k < views(names@).len() && #[trigger] views(names@)[k] == x;
                        if k < before.len() {
                            assert(before[k] == x);
                        }
                    }
                    if before.contains(x) {
                        let k = choose|k: int| 0 <= k < before.len() && #[trigger] before[k] == x;
                        assert(views(names@)[k] == x);
                    }
                    if x == ls[i as int][j as int].0@ {
                        assert(views(names@)[before.len() as int] == x);
                    }
                }
            }
            j = j + 1;
        }
        i = i + 1;
    }
    sorted_unique(&names)
}

/// All values of label `name` among the series, sorted, each once.
pub fn label_values(series: &Vec<Vec<(String, String)>>, name: &str) -> (r: Vec<String>)
    ensures
        strictly_sorted(views(r@)),
        forall|x: Seq<char>| #[trigger]
            views(r@).contains(x) <==> has_label_value(label_sets(series@), name@, x),
{
    let key = owned(name);
    let mut values: Vec<String> = Vec::new();
    let ghost ls = label_sets(series@);
    let mut i: usize = 0;
    while i < series.len()
        invariant
            i <= series@.len(),
            ls == label_sets(series@),
            key@ == name@,
            forall|x: Seq<char>|
                views(values@).contains(x) <==> exists|a: int, b: int|
                    0 <= a < i && 0 <= b < ls[a].len() && (#[trigger] ls[a][b]).0@ == name@ && ls[a][b].1@
                        == x,
        decreases series.len() - i,
    {
        let mut j: usize = 0;
        while j < series[i].len()
            invariant
                i < series@.len(),
                j <= series@[i as int]@.len(),
                ls == label_sets(series@),
                key@ == name@,
                forall|x: Seq<char>|
                    views(values@).contains(x) <==> ((exists|a: int, b: int|
                        0 <= a < i && 0 <= b < ls[a].len() && (#[trigger] ls[a][b]).0@ == name@
                            && ls[a][b].1@ == x) || (exists|b: int|
                        0 <= b < j && (#[trigger] ls[i as int][b]).0@ == name@ && ls[i as int][b].1@
                            == x)),
            decreases series@[i as int]@.len() - j,
        {
            if series[i][j].0 == key {
                let ghost before = views(values@);
                values.push(series[i][j].1.clone());
                proof {
                    assert(views(values@) =~= before.push(ls[i as int][j as int].1@));
                    assert forall|x: Seq<char>| views(values@).contains(x) <==> (before.contains(x)
                        || x == ls[i as int][j as int].1@) by {
                        if views(values@).contains(x) {
                            let k = choose|k: int| 0 <= k < views(values@).len() && #[trigger] views(values@)[k] == x;
                            if k < before.len() {
                                assert(before[k] == x);
                            }
                        }
                        if before.contains(x) {
                            let k = choose|k: int| 0 <= k < before.len() && #[trigger] before[k] == x;
                            assert(views(values@)[k] == x);
                        }
                        if x == ls[i as int][j as int].1@ {
                            assert(views(values@)[before.len() as int] == x);
                        }
                    }
                }
            }
            j = j + 1;
        }
        i = i + 1;
    }
    sorted_unique(&values)
}

/// Why a batch of queries is refused as a whole.
#[derive(Debug, Clone)]
pub enum BatchError {
    /// The batch holds no query.
    MissingQueries,
    /// Two queries share this id.
    DuplicateId(String),
}

impl BatchError {
    /// The message of the error.
    pub open spec fn spec_message(self) -> Seq<char> {
        match self {
            BatchError::MissingQueries => "missing 'queries' array"@,
            BatchError::DuplicateId(id) => "duplicate query id '"@ + id@ + "'"@,
        }
    }

    /// The message of the error.
    pub fn message(&self) -> (r: String)
        ensures
            r@ == self.spec_message(),
    {
        match self {
            BatchError::MissingQueries => owned("missing 'queries' array"),
            BatchError::DuplicateId(id) => {
                let mut m = owned("duplicate query id '");
                append_str(&mut m, id.as_str());
                append_str(&mut m, "'");
                m
            },
        }
    }
}

/// The first position whose id occurred earlier in `ids`.
pub open spec fn first_repeat(ids: Seq<Seq<char>>) -> Option<int>
    decreases ids.len(),
{
    if ids.len() == 0 {
        None
    } else {
        match first_repeat(ids.drop_last()) {
            Some(j) => Some(j),
            None => if ids.drop_last().contains(ids.last()) {
                Some(ids.len() - 1)
            } else {
                None
            },
        }
    }
}

proof fn lemma_first_repeat_prefix(ids: Seq<Seq<char>>, n: int)
    requires
        0 <= n <= ids.len(),
        first_repeat(ids.take(n)) is Some,
    ensures
        first_repeat(ids) == first_repeat(ids.take(n)),
    decreases ids.len() - n,
{
    if n < ids.len() {
        assert(ids.take(n + 1).drop_last() =~= ids.take(n));
        lemma_first_repeat_prefix(ids, n + 1);
    } else {
        assert(ids.take(n) =~= ids);
    }
}

/// Check a batch of query ids: it must not be empty, and no id may repeat.
pub fn validate_batch(ids: &Vec<String>) -> (r: Result<(), BatchError>)
    ensures
        ids@.len() == 0 ==> r matches Err(BatchError::MissingQueries),
        ids@.len() > 0 ==> match first_repeat(views(ids@)) {
            Some(j) => r matches Err(BatchError::DuplicateId(id)) && id@ == ids@[j]@,
            None => r is Ok,
        },
{
    if ids.len() == 0 {
        return Err(BatchError::MissingQueries);
    }
    let ghost iv = views(ids@);
    let mut i: usize = 0;
    while i < ids.len()
        invariant
            i <= ids@.len(),
            iv == views(ids@),
            first_repeat(iv.take(i as int)) is None,
        decreases ids.len() - i,
    {
        let mut j: usize = 0;
        let mut seen = false;
        while j < i
            invariant
                j <= i < ids@.len(),
                iv == views(ids@),
                seen == exists|k: int| 0 <= k < j && iv[k] == iv[i as int],
            decreases i - j,
        {
            assert(iv[j as int] == ids@[j as int]@ && iv[i as int] == ids@[i as int]@);
            if ids[j] == ids[i] {
                seen = true;
            }
            j = j + 1;
        }
        proof {
            assert(iv.take(i + 1).drop_last() =~= iv.take(i as int));
            assert(iv.take(i + 1).last() == iv[i as int]);
            assert(seen == iv.take(i as int).contains(iv[i as int])) by {
                if seen {
                    let k = choose|k: int| 0 <= k < i && iv[k] == iv[i as int];
                    assert(iv.take(i as int)[k] == iv[i as int]);
                }
                if iv.take(i as int).contains(iv[i as int]) {
                    let k = choose|k: int| 0 <= k < i && #[trigger] iv.take(i as int)[k] == iv[i as int];
                    assert(iv[k] == iv[i as int]);
                }
            }
        }
        if seen {
            proof {
                lemma_first_repeat_prefix(iv, i + 1);
            }
            return Err(BatchError::DuplicateId(ids[i].clone()));
        }
        i = i + 1;
    }
    assert(iv.take(iv.len() as int) =~= iv);
    Ok(())
}

} // verus!
