//! Orderings of what the time-series store hands back: names sorted
//! without repeats, and samples sorted by time.
use vstd::prelude::*;

use crate::text::{chars_of, views};

verus! {

broadcast use vstd::seq_lib::group_seq_properties;

/// `a` comes before `b` in the order of `String` (lexicographic by code
/// point, which is the order of their UTF-8 bytes).
pub open spec fn text_lt(a: Seq<char>, b: Seq<char>) -> bool
    decreases a.len(),
{
    if b.len() == 0 {
        false
    } else if a.len() == 0 {
        true
    } else if a[0] != b[0] {
        (a[0] as u32) < (b[0] as u32)
    } else {
        text_lt(a.drop_first(), b.drop_first())
    }
}

pub proof fn lemma_text_lt_irreflexive(a: Seq<char>)
    ensures
        !text_lt(a, a),
    decreases a.len(),
{
    if a.len() > 0 {
        lemma_text_lt_irreflexive(a.drop_first());
    }
}

pub proof fn lemma_text_lt_total(a: Seq<char>, b: Seq<char>)
    ensures
        a != b ==> (text_lt(a, b) || text_lt(b, a)),
        !(text_lt(a, b) && text_lt(b, a)),
    decreases a.len(),
{
    if a.len() > 0 && b.len() > 0 {
        if a[0] == b[0] {
            lemma_text_lt_total(a.drop_first(), b.drop_first());
            if a != b {
                assert(a =~= seq![a[0]] + a.drop_first());
                assert(b =~= seq![b[0]] + b.drop_first());
            }
        } else {
            vstd::utf8::char_u32_cast(a[0], a[0] as u32);
            vstd::utf8::char_u32_cast(b[0], b[0] as u32);
        }
    } else if a.len() == 0 && b.len() == 0 {
        assert(a =~= b);
    }
}

pub proof fn lemma_text_lt_transitive(a: Seq<char>, b: Seq<char>, c: Seq<char>)
    requires
        text_lt(a, b),
        text_lt(b, c),
    ensures
        text_lt(a, c),
    decreases a.len(),
{
    if a.len() > 0 && a[0] == b[0] && b[0] == c[0] {
        lemma_text_lt_transitive(a.drop_first(), b.drop_first(), c.drop_first());
    }
}

/// Every element of `s` comes before every later one: sorted, no repeats.
pub open spec fn strictly_sorted(s: Seq<Seq<char>>) -> bool {
    forall|i: int, j: int| 0 <= i < j < s.len() ==> text_lt(#[trigger] s[i], #[trigger] s[j])
}

proof fn lemma_skip_common_prefix(a: Seq<char>, b: Seq<char>, i: int)
    requires
        0 <= i <= a.len(),
        i <= b.len(),
        forall|j: int| 0 <= j < i ==> a[j] == b[j],
    ensures
        text_lt(a, b) == text_lt(a.skip(i), b.skip(i)),
    decreases i,
{
    if i > 0 {
        assert(a.drop_first().skip(i - 1) =~= a.skip(i));
        assert(b.drop_first().skip(i - 1) =~= b.skip(i));
        lemma_skip_common_prefix(a.drop_first(), b.drop_first(), i - 1);
    } else {
        assert(a.skip(0) =~= a);
        assert(b.skip(0) =~= b);
    }
}

/// Whether `a` comes before `b` in the order of `String`.
pub fn text_less(a: &Vec<char>, b: &Vec<char>) -> (r: bool)
    ensures
        r == text_lt(a@, b@),
{
    let mut i: usize = 0;
    while i < a.len() && i < b.len() && a[i] == b[i]
        invariant
            i <= a.len(),
            i <= b.len(),
            forall|j: int| 0 <= j < i ==> a@[j] == b@[j],
        decreases a.len() - i,
    {
        i = i + 1;
    }
    proof {
        lemma_skip_common_prefix(a@, b@, i as int);
    }
    if i == b.len() {
        false
    } else if i == a.len() {
        true
    } else {
        (a[i] as u32) < (b[i] as u32)
    }
}

/// `names` sorted in the order of `String`, each name once.
pub fn sorted_unique(names: &Vec<String>) -> (r: Vec<String>)
    ensures
        strictly_sorted(views(r@)),
        forall|x: Seq<char>| views(r@).contains(x) <==> views(names@).contains(x),
{
    let mut out: Vec<String> = Vec::new();
    let mut out_chars: Vec<Vec<char>> = Vec::new();
    let mut i: usize = 0;
    while i < names.len()
        invariant
            i <= names@.len(),
            out@.len() == out_chars@.len(),
            forall|j: int| 0 <= j < out@.len() ==> #[trigger] out_chars@[j]@ == out@[j]@,
            strictly_sorted(views(out@)),
            forall|x: Seq<char>| views(out@).contains(x) <==> views(names@).take(i as int).contains(x),
        decreases names.len() - i,
    {
        let x = chars_of(names[i].as_str());
        let ghost ov = views(out@);
        let mut p: usize = 0;
        while p < out_chars.len() && text_less(&out_chars[p], &x)
            invariant
                p <= out_chars@.len(),
                out@.len() == out_chars@.len(),
                ov == views(out@),
                forall|j: int| 0 <= j < out@.len() ==> #[trigger] out_chars@[j]@ == out@[j]@,
                forall|j: int| 0 <= j < p ==> text_lt(#[trigger] ov[j], x@),
            decreases out_chars.len() - p,
        {
            p = p + 1;
        }
        let present = p < out_chars.len() && crate::text::chars_eq(&out_chars[p], &x);
        proof {
            let nv = views(names@);
            assert(nv.take(i + 1) =~= nv.take(i as int).push(x@));
            assert forall|y: Seq<char>| nv.take(i + 1).contains(y) <==> (nv.take(i as int).contains(y)
                || y == x@) by {
                if nv.take(i + 1).contains(y) {
                    let k = choose|k: int| 0 <= k < nv.take(i + 1).len() && #[trigger] nv.take(i + 1)[k] == y;
                    if k < i {
                        assert(nv.take(i as int)[k] == y);
                    }
                }
                if nv.take(i as int).contains(y) {
                    let k = choose|k: int| 0 <= k < nv.take(i as int).len() && #[trigger] nv.take(i as int)[k] == y;
                    assert(nv.take(i + 1)[k] == y);
                }
                if y == x@ {
                    assert(nv.take(i + 1)[i as int] == y);
                }
            }
        }
        if !present {
            proof {
                if p < out_chars@.len() {
                    lemma_text_lt_total(ov[p as int], x@);
                    assert(text_lt(x@, ov[p as int]));
                }
            }
            let s = names[i].clone();
            out.insert(p, s);
            out_chars.insert(p, x);
            proof {
                let nv = views(out@);
                assert(nv =~= ov.insert(p as int, x@));
                assert forall|a: int, b: int| 0 <= a < b < nv.len() implies text_lt(
                    #[trigger] nv[a],
                    #[trigger] nv[b],
                ) by {
                    if b < p {
                        assert(nv[a] == ov[a] && nv[b] == ov[b]);
                    } else if b == p {
                        assert(nv[a] == ov[a]);
                    } else if a == p {
                        assert(nv[b] == ov[b - 1]);
                        if b - 1 > p {
                            lemma_text_lt_transitive(x@, ov[p as int], ov[b - 1]);
                        }
                    } else if a < p {
                        assert(nv[a] == ov[a] && nv[b] == ov[b - 1]);
                    } else {
                        assert(nv[a] == ov[a - 1] && nv[b] == ov[b - 1]);
                    }
                }
                assert forall|y: Seq<char>| nv.contains(y) <==> (ov.contains(y) || y == x@) by {
                    if nv.contains(y) {
                        let k = choose|k: int| 0 <= k < nv.len() && #[trigger] nv[k] == y;
                        if k < p {
                            assert(ov[k] == y);
                        } else if k > p {
                            assert(ov[k - 1] == y);
                        }
                    }
                    if ov.contains(y) {
                        let k = choose|k: int| 0 <= k < ov.len() && #[trigger] ov[k] == y;
                        if k < p {
                            assert(nv[k] == y);
                        } else {
                            assert(nv[k + 1] == y);
                        }
                    }
                    if y == x@ {
                        assert(nv[p as int] == y);
                    }
                }
                assert forall|j: int| 0 <= j < out@.len() implies #[trigger] out_chars@[j]@ == out@[j]@ by {
                    if j < p {
                    } else if j > p {
                        assert(out_chars@[j] == old_chars_at(out_chars@, j));
                    }
                }
            }
        } else {
            proof {
                assert(ov[p as int] == x@);
                assert(ov.contains(x@));
            }
        }
        i = i + 1;
    }
    assert(views(names@).take(names@.len() as int) =~= views(names@));
    out
}

/// The element of `v` at `j` (a name for a trigger).
spec fn old_chars_at(v: Seq<Vec<char>>, j: int) -> Vec<char> {
    v[j]
}

/// `s` is in time order.
pub open spec fn time_sorted<V>(s: Seq<(i64, V)>) -> bool {
    forall|i: int, j: int| 0 <= i < j < s.len() ==> (#[trigger] s[i]).0 <= (#[trigger] s[j]).0
}

/// The test "taken at time `t`".
pub open spec fn taken_at<V>(t: i64) -> spec_fn((i64, V)) -> bool {
    |e: (i64, V)| e.0 == t
}

/// The samples of `s` taken at time `t`, in order.
pub open spec fn at_time<V>(s: Seq<(i64, V)>, t: i64) -> Seq<(i64, V)> {
    s.filter(taken_at(t))
}

/// `points` sorted by time, samples of equal time keeping their order (the
/// stable sort `sort_by_key` gives).
pub fn sort_by_time<V: Copy>(points: &Vec<(i64, V)>) -> (r: Vec<(i64, V)>)
    ensures
        time_sorted(r@),
        forall|t: i64| #[trigger] at_time(r@, t) == at_time(points@, t),
{
    let mut out: Vec<(i64, V)> = Vec::new();
    let mut i: usize = 0;
    while i < points.len()
        invariant
            i <= points@.len(),
            time_sorted(out@),
            forall|t: i64| #[trigger] at_time(out@, t) == at_time(points@.take(i as int), t),
        decreases points.len() - i,
    {
        let x = points[i];
        let mut p: usize = 0;
        while p < out.len() && out[p].0 <= x.0
            invariant
                p <= out@.len(),
                forall|j: int| 0 <= j < p ==> (#[trigger] out@[j]).0 <= x.0,
            decreases out.len() - p,
        {
            p = p + 1;
        }
        let ghost before = out@;
        out.insert(p, x);
        proof {
            let after = out@;
            assert(after =~= before.take(p as int) + seq![x] + before.skip(p as int));
            assert(before =~= before.take(p as int) + before.skip(p as int));
            assert(points@.take(i + 1) =~= points@.take(i as int) + seq![x]);
            assert forall|t: i64| #[trigger] at_time(out@, t) == at_time(points@.take(i + 1), t) by {
                let pred = taken_at::<V>(t);
                let a = before.take(p as int);
                let b = before.skip(p as int);
                assert(at_time(before, t) == at_time(points@.take(i as int), t));
                Seq::filter_distributes_over_add(before.take(p as int) + seq![x], before.skip(p as int), pred);
                Seq::filter_distributes_over_add(before.take(p as int), seq![x], pred);
                Seq::filter_distributes_over_add(before.take(p as int), before.skip(p as int), pred);
                Seq::filter_distributes_over_add(points@.take(i as int), seq![x], pred);
                if t == x.0 {
                    assert(before.skip(p as int).filter(pred) =~= Seq::<(i64, V)>::empty()) by {
                        if before.skip(p as int).filter(pred).len() > 0 {
                            let e = before.skip(p as int).filter(pred)[0];
                            before.skip(p as int).lemma_filter_pred(pred, 0);
                            assert(before.skip(p as int).filter(pred).contains(e));
                            before.skip(p as int).lemma_filter_contains_rev(pred, e);
                            let k = choose|k: int| 0 <= k < before.skip(p as int).len() && #[trigger] before.skip(p as int)[k] == e;
                            assert(before[p + k] == e);
                            if p < before.len() {
                                assert(before[p as int].0 > x.0);
                                if k > 0 {
                                    assert(before[p as int].0 <= before[p + k].0);
                                }
                            }
                        }
                    }
                }
                assert(seq![x].filter(pred) =~= (if x.0 == t { seq![x] } else { Seq::<(i64, V)>::empty() })) by {
                    reveal(Seq::filter);
                    assert(seq![x].drop_last() =~= Seq::<(i64, V)>::empty());
                }
                if t == x.0 {
                    assert(after.filter(pred) =~= a.filter(pred) + seq![x]);
                    assert(before.filter(pred) =~= a.filter(pred));
                } else {
                    assert(after.filter(pred) =~= a.filter(pred) + b.filter(pred));
                }
            }
            assert forall|a: int, b: int| 0 <= a < b < after.len() implies (#[trigger] after[a]).0
                <= (#[trigger] after[b]).0 by {
                if b < p {
                    assert(after[a] == before[a] && after[b] == before[b]);
                } else if b == p {
                    assert(after[a] == before[a]);
                } else if a == p {
                    assert(after[b] == before[b - 1]);
                    if b - 1 > p {
                        assert(before[p as int].0 <= before[b - 1].0);
                    }
                } else if a < p {
                    assert(after[a] == before[a] && after[b] == before[b - 1]);
                } else {
                    assert(after[a] == before[a - 1] && after[b] == before[b - 1]);
                }
            }
        }
        i = i + 1;
    }
    assert(points@.take(points@.len() as int) =~= points@);
    out
}

} // verus!
