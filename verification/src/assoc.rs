//! Association lists: sequences of key/value pairs with distinct keys, read as
//! maps. The library keeps small keyed tables in vectors and states their
//! contents as maps through these definitions.

use vstd::prelude::*;

verus! {

/// No key occurs twice.
pub open spec fn keys_unique<K, V>(s: Seq<(K, V)>) -> bool {
    forall|i: int, j: int| 0 <= i < s.len() && 0 <= j < s.len() && i != j ==> #[trigger] s[i].0 != #[trigger] s[j].0
}

/// Whether some pair has the key `k`.
pub open spec fn has_key<K, V>(s: Seq<(K, V)>, k: K) -> bool {
    exists|i: int| 0 <= i < s.len() && #[trigger] s[i].0 == k
}

/// The map from each key to the value paired with it.
pub open spec fn to_map<K, V>(s: Seq<(K, V)>) -> Map<K, V> {
    Map::new(|k: K| has_key(s, k), |k: K| s[choose|i: int| 0 <= i < s.len() && #[trigger] s[i].0 == k].1)
}

/// The keys, in order.
pub open spec fn keys_of<K, V>(s: Seq<(K, V)>) -> Seq<K> {
    s.map_values(|p: (K, V)| p.0)
}

pub proof fn lemma_at<K, V>(s: Seq<(K, V)>, i: int)
    requires
        keys_unique(s),
        0 <= i < s.len(),
    ensures
        to_map(s).contains_key(s[i].0),
        to_map(s)[s[i].0] == s[i].1,
{
    assert(has_key(s, s[i].0));
    let j = choose|j: int| 0 <= j < s.len() && #[trigger] s[j].0 == s[i].0;
    assert(j == i);
}

pub proof fn lemma_absent<K, V>(s: Seq<(K, V)>, k: K)
    requires
        forall|i: int| 0 <= i < s.len() ==> s[i].0 != k,
    ensures
        !to_map(s).contains_key(k),
{
}

pub proof fn lemma_update<K, V>(s: Seq<(K, V)>, i: int, v: V)
    requires
        keys_unique(s),
        0 <= i < s.len(),
    ensures
        keys_unique(s.update(i, (s[i].0, v))),
        to_map(s.update(i, (s[i].0, v))) == to_map(s).insert(s[i].0, v),
{
    let k0 = s[i].0;
    let u = s.update(i, (k0, v));
    assert forall|a: int, b: int| 0 <= a < u.len() && 0 <= b < u.len() && a != b implies #[trigger] u[a].0 != #[trigger] u[b].0 by {
        assert(u[a].0 == s[a].0);
        assert(u[b].0 == s[b].0);
    }
    let m1 = to_map(u);
    let m2 = to_map(s).insert(k0, v);
    assert forall|k: K| m1.contains_key(k) <==> m2.contains_key(k) by {
        if m1.contains_key(k) {
            let j = choose|j: int| 0 <= j < u.len() && #[trigger] u[j].0 == k;
            assert(s[j].0 == k);
        }
        if m2.contains_key(k) && k != k0 {
            let j = choose|j: int| 0 <= j < s.len() && #[trigger] s[j].0 == k;
            assert(u[j].0 == k);
        }
        if k == k0 {
            assert(u[i].0 == k);
        }
    }
    assert forall|k: K| #[trigger] m1.contains_key(k) implies m1[k] == m2[k] by {
        let j = choose|j: int| 0 <= j < u.len() && #[trigger] u[j].0 == k;
        lemma_at(u, j);
        if j != i {
            assert(s[j].0 == k);
            lemma_at(s, j);
        }
    }
    assert(m1 =~= m2);
}

pub proof fn lemma_push<K, V>(s: Seq<(K, V)>, k0: K, v: V)
    requires
        keys_unique(s),
        !has_key(s, k0),
    ensures
        keys_unique(s.push((k0, v))),
        to_map(s.push((k0, v))) == to_map(s).insert(k0, v),
{
    let u = s.push((k0, v));
    assert forall|a: int, b: int| 0 <= a < u.len() && 0 <= b < u.len() && a != b implies #[trigger] u[a].0 != #[trigger] u[b].0 by {
        if a < s.len() {
            assert(u[a] == s[a]);
        }
        if b < s.len() {
            assert(u[b] == s[b]);
        }
    }
    let m1 = to_map(u);
    let m2 = to_map(s).insert(k0, v);
    assert forall|k: K| m1.contains_key(k) <==> m2.contains_key(k) by {
        if m1.contains_key(k) && k != k0 {
            let j = choose|j: int| 0 <= j < u.len() && #[trigger] u[j].0 == k;
            assert(j < s.len());
            assert(s[j].0 == k);
        }
        if m2.contains_key(k) && k != k0 {
            let j = choose|j: int| 0 <= j < s.len() && #[trigger] s[j].0 == k;
            assert(u[j].0 == k);
        }
        if k == k0 {
            assert(u[s.len() as int].0 == k);
        }
    }
    assert forall|k: K| #[trigger] m1.contains_key(k) implies m1[k] == m2[k] by {
        let j = choose|j: int| 0 <= j < u.len() && #[trigger] u[j].0 == k;
        lemma_at(u, j);
        if j < s.len() {
            assert(u[j] == s[j]);
            lemma_at(s, j);
        }
    }
    assert(m1 =~= m2);
}

pub proof fn lemma_remove<K, V>(s: Seq<(K, V)>, i: int)
    requires
        keys_unique(s),
        0 <= i < s.len(),
    ensures
        keys_unique(s.remove(i)),
        to_map(s.remove(i)) == to_map(s).remove(s[i].0),
{
    let k0 = s[i].0;
    let u = s.remove(i);
    assert forall|a: int, b: int| 0 <= a < u.len() && 0 <= b < u.len() && a != b implies #[trigger] u[a].0 != #[trigger] u[b].0 by {
        let a1 = if a < i { a } else { a + 1 };
        let b1 = if b < i { b } else { b + 1 };
        assert(u[a] == s[a1]);
        assert(u[b] == s[b1]);
    }
    let m1 = to_map(u);
    let m2 = to_map(s).remove(k0);
    assert forall|k: K| m1.contains_key(k) <==> m2.contains_key(k) by {
        if m1.contains_key(k) {
            let j = choose|j: int| 0 <= j < u.len() && #[trigger] u[j].0 == k;
            let j1 = if j < i { j } else { j + 1 };
            assert(u[j] == s[j1]);
            assert(s[j1].0 == k);
            assert(j1 != i);
        }
        if m2.contains_key(k) {
            let j = choose|j: int| 0 <= j < s.len() && #[trigger] s[j].0 == k;
            assert(j != i);
            let j0 = if j < i { j } else { j - 1 };
            assert(u[j0] == s[j]);
        }
    }
    assert forall|k: K| #[trigger] m1.contains_key(k) implies m1[k] == m2[k] by {
        let j = choose|j: int| 0 <= j < u.len() && #[trigger] u[j].0 == k;
        lemma_at(u, j);
        let j1 = if j < i { j } else { j + 1 };
        assert(u[j] == s[j1]);
        lemma_at(s, j1);
    }
    assert(m1 =~= m2);
}

pub proof fn lemma_len<K, V>(s: Seq<(K, V)>)
    requires
        keys_unique(s),
    ensures
        to_map(s).dom().len() == s.len(),
        to_map(s).dom().finite(),
{
    let ks = keys_of(s);
    assert(ks.no_duplicates()) by {
        assert forall|a: int, b: int| 0 <= a < ks.len() && 0 <= b < ks.len() && a != b implies ks[a] != ks[b] by {
            assert(ks[a] == s[a].0);
            assert(ks[b] == s[b].0);
        }
    }
    assert(to_map(s).dom() =~= ks.to_set()) by {
        assert forall|k: K| to_map(s).dom().contains(k) <==> ks.to_set().contains(k) by {
            if to_map(s).dom().contains(k) {
                let j = choose|j: int| 0 <= j < s.len() && #[trigger] s[j].0 == k;
                assert(ks[j] == k);
            }
            if ks.to_set().contains(k) {
                let j = choose|j: int| 0 <= j < ks.len() && ks[j] == k;
                assert(s[j].0 == k);
            }
        }
    }
    ks.unique_seq_to_set();
}

} // verus!

verus! {

/// The value paired with the first occurrence of key `k`, if any.
pub open spec fn first_value<K, V>(s: Seq<(K, V)>, k: K) -> Option<V>
    decreases s.len(),
{
    if s.len() == 0 {
        None
    } else if s[0].0 == k {
        Some(s[0].1)
    } else {
        first_value(s.drop_first(), k)
    }
}

} // verus!
