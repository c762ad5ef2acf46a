//! Insertion-ordered association lists: the mathematical model behind every
//! mapping in the document (localized variants, key buckets inside a group,
//! and the groups themselves). Order of first appearance is part of the
//! model, so that serialization is deterministic.

use vstd::prelude::*;

verus! {

/// The value bound to `k`: the one in the first pair whose key is `k`.
pub open spec fn al_lookup<K, V>(m: Seq<(K, V)>, k: K) -> Option<V>
    decreases m.len(),
{
    if m.len() == 0 {
        None
    } else if m[0].0 == k {
        Some(m[0].1)
    } else {
        al_lookup(m.drop_first(), k)
    }
}

/// Rebinds `k` in place when it is present, and appends the binding at the
/// end when it is not.
pub open spec fn al_set<K, V>(m: Seq<(K, V)>, k: K, v: V) -> Seq<(K, V)>
    decreases m.len(),
{
    if m.len() == 0 {
        seq![(k, v)]
    } else if m[0].0 == k {
        seq![(k, v)] + m.drop_first()
    } else {
        seq![m[0]] + al_set(m.drop_first(), k, v)
    }
}

/// Appends `v` to the bucket of `k` when one exists, and opens a new
/// bucket at the end when none does.
pub open spec fn mm_add<K, V>(m: Seq<(K, Seq<V>)>, k: K, v: V) -> Seq<(K, Seq<V>)>
    decreases m.len(),
{
    if m.len() == 0 {
        seq![(k, seq![v])]
    } else if m[0].0 == k {
        seq![(m[0].0, m[0].1.push(v))] + m.drop_first()
    } else {
        seq![m[0]] + mm_add(m.drop_first(), k, v)
    }
}

/// When the first pair keyed `k` stands at index `i`, a lookup yields its
/// value.
pub proof fn lemma_al_lookup_at<K, V>(m: Seq<(K, V)>, k: K, i: int)
    requires
        0 <= i < m.len(),
        m[i].0 == k,
        forall|j: int| 0 <= j < i ==> (#[trigger] m[j]).0 != k,
    ensures
        al_lookup(m, k) == Some(m[i].1),
    decreases i,
{
    if i > 0 {
        lemma_al_lookup_at(m.drop_first(), k, i - 1);
    }
}

/// When no pair is keyed `k`, a lookup yields nothing.
pub proof fn lemma_al_lookup_absent<K, V>(m: Seq<(K, V)>, k: K)
    requires
        forall|j: int| 0 <= j < m.len() ==> (#[trigger] m[j]).0 != k,
    ensures
        al_lookup(m, k) is None,
    decreases m.len(),
{
    if m.len() > 0 {
        lemma_al_lookup_absent(m.drop_first(), k);
    }
}

/// When the first pair keyed `k` stands at index `i`, rebinding updates
/// that pair in place.
pub proof fn lemma_al_set_at<K, V>(m: Seq<(K, V)>, k: K, v: V, i: int)
    requires
        0 <= i < m.len(),
        m[i].0 == k,
        forall|j: int| 0 <= j < i ==> (#[trigger] m[j]).0 != k,
    ensures
        al_set(m, k, v) == m.update(i, (k, v)),
    decreases i,
{
    if i == 0 {
        assert(seq![(k, v)] + m.drop_first() =~= m.update(0, (k, v)));
    } else {
        lemma_al_set_at(m.drop_first(), k, v, i - 1);
        assert(seq![m[0]] + m.drop_first().update(i - 1, (k, v)) =~= m.update(i, (k, v)));
    }
}

/// When no pair is keyed `k`, rebinding appends at the end.
pub proof fn lemma_al_set_absent<K, V>(m: Seq<(K, V)>, k: K, v: V)
    requires
        forall|j: int| 0 <= j < m.len() ==> (#[trigger] m[j]).0 != k,
    ensures
        al_set(m, k, v) == m.push((k, v)),
    decreases m.len(),
{
    if m.len() == 0 {
        assert(seq![(k, v)] =~= m.push((k, v)));
    } else {
        lemma_al_set_absent(m.drop_first(), k, v);
        assert(seq![m[0]] + m.drop_first().push((k, v)) =~= m.push((k, v)));
    }
}

/// When the first bucket keyed `k` stands at index `i`, adding appends to
/// that bucket in place.
pub proof fn lemma_mm_add_at<K, V>(m: Seq<(K, Seq<V>)>, k: K, v: V, i: int)
    requires
        0 <= i < m.len(),
        m[i].0 == k,
        forall|j: int| 0 <= j < i ==> (#[trigger] m[j]).0 != k,
    ensures
        mm_add(m, k, v) == m.update(i, (m[i].0, m[i].1.push(v))),
    decreases i,
{
    if i == 0 {
        assert(seq![(m[0].0, m[0].1.push(v))] + m.drop_first() =~= m.update(
            0,
            (m[0].0, m[0].1.push(v)),
        ));
    } else {
        lemma_mm_add_at(m.drop_first(), k, v, i - 1);
        assert(seq![m[0]] + m.drop_first().update(i - 1, (m[i].0, m[i].1.push(v))) =~= m.update(
            i,
            (m[i].0, m[i].1.push(v)),
        ));
    }
}

/// When no bucket is keyed `k`, adding opens a new bucket at the end.
pub proof fn lemma_mm_add_absent<K, V>(m: Seq<(K, Seq<V>)>, k: K, v: V)
    requires
        forall|j: int| 0 <= j < m.len() ==> (#[trigger] m[j]).0 != k,
    ensures
        mm_add(m, k, v) == m.push((k, seq![v])),
    decreases m.len(),
{
    if m.len() == 0 {
        assert(seq![(k, seq![v])] =~= m.push((k, seq![v])));
    } else {
        lemma_mm_add_absent(m.drop_first(), k, v);
        assert(seq![m[0]] + m.drop_first().push((k, seq![v])) =~= m.push((k, seq![v])));
    }
}

} // verus!
