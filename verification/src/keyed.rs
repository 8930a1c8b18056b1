//! Maps kept as vectors of entries with distinct keys, and the lemmas that
//! relate vector edits to map edits.
use vstd::prelude::*;

verus! {

pub open spec fn distinct_keys(ks: Seq<Seq<char>>) -> bool {
    forall|i: int, j: int| 0 <= i < ks.len() && 0 <= j < ks.len() && i != j ==> ks[i] != ks[j]
}

pub open spec fn key_index(ks: Seq<Seq<char>>, k: Seq<char>) -> int {
    choose|i: int| 0 <= i < ks.len() && ks[i] == k
}

/// The map whose entries are `(ks[i], vs[i])`.
pub open spec fn to_map<V>(ks: Seq<Seq<char>>, vs: Seq<V>) -> Map<Seq<char>, V> {
    Map::new(|k: Seq<char>| ks.contains(k), |k: Seq<char>| vs[key_index(ks, k)])
}

pub proof fn lemma_set_push(ks: Seq<Seq<char>>, k: Seq<char>)
    requires
        distinct_keys(ks),
        !ks.contains(k),
    ensures
        distinct_keys(ks.push(k)),
        ks.push(k).to_set() == ks.to_set().insert(k),
{
    lemma_push(ks, ks, k, k);
    assert forall|x: Seq<char>| #[trigger] ks.push(k).to_set().contains(x) <==> ks.to_set().insert(
        k,
    ).contains(x) by {
        if ks.push(k).contains(x) {
            let j = choose|j: int| 0 <= j < ks.push(k).len() && ks.push(k)[j] == x;
            if j < ks.len() {
                assert(ks[j] == x);
            }
        }
        if ks.contains(x) {
            let j = choose|j: int| 0 <= j < ks.len() && ks[j] == x;
            assert(ks.push(k)[j] == x);
        }
        if x == k {
            assert(ks.push(k)[ks.len() as int] == k);
        }
    }
    assert(ks.push(k).to_set() =~= ks.to_set().insert(k));
}

pub proof fn lemma_set_remove(ks: Seq<Seq<char>>, i: int)
    requires
        distinct_keys(ks),
        0 <= i < ks.len(),
    ensures
        distinct_keys(ks.remove(i)),
        ks.remove(i).to_set() == ks.to_set().remove(ks[i]),
{
    lemma_remove(ks, ks, i);
    let r = ks.remove(i);
    assert forall|x: Seq<char>| #[trigger] r.to_set().contains(x) <==> ks.to_set().remove(
        ks[i],
    ).contains(x) by {
        if r.contains(x) {
            let j = choose|j: int| 0 <= j < r.len() && r[j] == x;
            let j1 = if j < i { j } else { j + 1 };
            assert(ks[j1] == x);
        }
        if ks.contains(x) && x != ks[i] {
            let j = choose|j: int| 0 <= j < ks.len() && ks[j] == x;
            if j < i {
                assert(r[j] == x);
            } else {
                assert(r[j - 1] == x);
            }
        }
    }
    assert(r.to_set() =~= ks.to_set().remove(ks[i]));
}

pub proof fn lemma_set_empty(ks: Seq<Seq<char>>)
    ensures
        ks.len() == 0 <==> ks.to_set() == Set::<Seq<char>>::empty(),
{
    if ks.len() == 0 {
        assert(ks.to_set() =~= Set::<Seq<char>>::empty());
    } else {
        assert(ks.to_set().contains(ks[0]));
    }
}

pub proof fn lemma_key_index(ks: Seq<Seq<char>>, i: int)
    requires
        distinct_keys(ks),
        0 <= i < ks.len(),
    ensures
        ks.contains(ks[i]),
        key_index(ks, ks[i]) == i,
{
    assert(ks[i] == ks[i]);
    let j = key_index(ks, ks[i]);
    assert(0 <= j < ks.len() && ks[j] == ks[i]);
}

pub proof fn lemma_to_map_index<V>(ks: Seq<Seq<char>>, vs: Seq<V>, i: int)
    requires
        distinct_keys(ks),
        0 <= i < ks.len(),
    ensures
        to_map(ks, vs).dom().contains(ks[i]),
        to_map(ks, vs)[ks[i]] == vs[i],
{
    lemma_key_index(ks, i);
}

pub proof fn lemma_update<V>(ks: Seq<Seq<char>>, vs: Seq<V>, i: int, v: V)
    requires
        distinct_keys(ks),
        ks.len() == vs.len(),
        0 <= i < ks.len(),
    ensures
        to_map(ks, vs.update(i, v)) == to_map(ks, vs).insert(ks[i], v),
{
    let m1 = to_map(ks, vs.update(i, v));
    let m2 = to_map(ks, vs).insert(ks[i], v);
    assert forall|k: Seq<char>| #[trigger] m1.dom().contains(k) <==> m2.dom().contains(k) by {
        if k == ks[i] {
            lemma_key_index(ks, i);
        }
    }
    assert forall|k: Seq<char>| m1.dom().contains(k) implies m1[k] == m2[k] by {
        let j = key_index(ks, k);
        lemma_key_index(ks, j);
        if k == ks[i] {
            lemma_key_index(ks, i);
        }
    }
    assert(m1 =~= m2);
}

pub proof fn lemma_push<V>(ks: Seq<Seq<char>>, vs: Seq<V>, k: Seq<char>, v: V)
    requires
        distinct_keys(ks),
        ks.len() == vs.len(),
        !ks.contains(k),
    ensures
        distinct_keys(ks.push(k)),
        to_map(ks.push(k), vs.push(v)) == to_map(ks, vs).insert(k, v),
{
    let ks2 = ks.push(k);
    let vs2 = vs.push(v);
    assert forall|i: int, j: int|
        0 <= i < ks2.len() && 0 <= j < ks2.len() && i != j implies ks2[i] != ks2[j] by {
        if i == ks.len() {
            assert(ks[j] == ks2[j]);
        } else if j == ks.len() {
            assert(ks[i] == ks2[i]);
        }
    }
    let m1 = to_map(ks2, vs2);
    let m2 = to_map(ks, vs).insert(k, v);
    assert forall|x: Seq<char>| #[trigger] m1.dom().contains(x) <==> m2.dom().contains(x) by {
        if ks2.contains(x) {
            let j = choose|j: int| 0 <= j < ks2.len() && ks2[j] == x;
            if j < ks.len() {
                assert(ks[j] == x);
            }
        }
        if ks.contains(x) {
            let j = choose|j: int| 0 <= j < ks.len() && ks[j] == x;
            assert(ks2[j] == x);
        }
        if x == k {
            assert(ks2[ks.len() as int] == k);
        }
    }
    assert forall|x: Seq<char>| m1.dom().contains(x) implies m1[x] == m2[x] by {
        let j = key_index(ks2, x);
        lemma_key_index(ks2, j);
        if j < ks.len() {
            assert(ks[j] == x);
            lemma_key_index(ks, j);
        }
    }
    assert(m1 =~= m2);
}

pub proof fn lemma_remove<V>(ks: Seq<Seq<char>>, vs: Seq<V>, i: int)
    requires
        distinct_keys(ks),
        ks.len() == vs.len(),
        0 <= i < ks.len(),
    ensures
        distinct_keys(ks.remove(i)),
        to_map(ks.remove(i), vs.remove(i)) == to_map(ks, vs).remove(ks[i]),
{
    let ks2 = ks.remove(i);
    let vs2 = vs.remove(i);
    assert forall|a: int, b: int|
        0 <= a < ks2.len() && 0 <= b < ks2.len() && a != b implies ks2[a] != ks2[b] by {
        let a1 = if a < i { a } else { a + 1 };
        let b1 = if b < i { b } else { b + 1 };
        assert(ks2[a] == ks[a1]);
        assert(ks2[b] == ks[b1]);
    }
    let m1 = to_map(ks2, vs2);
    let m2 = to_map(ks, vs).remove(ks[i]);
    assert forall|x: Seq<char>| #[trigger] m1.dom().contains(x) <==> m2.dom().contains(x) by {
        if ks2.contains(x) {
            let j = choose|j: int| 0 <= j < ks2.len() && ks2[j] == x;
            let j1 = if j < i { j } else { j + 1 };
            assert(ks[j1] == x);
        }
        if ks.contains(x) && x != ks[i] {
            let j = choose|j: int| 0 <= j < ks.len() && ks[j] == x;
            if j < i {
                assert(ks2[j] == x);
            } else {
                assert(ks2[j - 1] == x);
            }
        }
    }
    assert forall|x: Seq<char>| m1.dom().contains(x) implies m1[x] == m2[x] by {
        let j = key_index(ks2, x);
        lemma_key_index(ks2, j);
        let j1 = if j < i { j } else { j + 1 };
        assert(ks[j1] == x);
        lemma_key_index(ks, j1);
    }
    assert(m1 =~= m2);
}

pub proof fn lemma_insert_at<V>(ks: Seq<Seq<char>>, vs: Seq<V>, p: int, k: Seq<char>, v: V)
    requires
        distinct_keys(ks),
        ks.len() == vs.len(),
        0 <= p <= ks.len(),
        !ks.contains(k),
    ensures
        distinct_keys(ks.insert(p, k)),
        to_map(ks.insert(p, k), vs.insert(p, v)) == to_map(ks, vs).insert(k, v),
{
    let ks2 = ks.insert(p, k);
    let vs2 = vs.insert(p, v);
    assert forall|a: int, b: int|
        0 <= a < ks2.len() && 0 <= b < ks2.len() && a != b implies ks2[a] != ks2[b] by {
        if a != p && b != p {
            let a1 = if a < p { a } else { a - 1 };
            let b1 = if b < p { b } else { b - 1 };
            assert(ks2[a] == ks[a1]);
            assert(ks2[b] == ks[b1]);
        } else if a == p {
            let b1 = if b < p { b } else { b - 1 };
            assert(ks2[b] == ks[b1]);
        } else {
            let a1 = if a < p { a } else { a - 1 };
            assert(ks2[a] == ks[a1]);
        }
    }
    let m1 = to_map(ks2, vs2);
    let m2 = to_map(ks, vs).insert(k, v);
    assert forall|x: Seq<char>| #[trigger] m1.dom().contains(x) <==> m2.dom().contains(x) by {
        if ks2.contains(x) {
            let j = choose|j: int| 0 <= j < ks2.len() && ks2[j] == x;
            if j < p {
                assert(ks[j] == x);
            } else if j > p {
                assert(ks[j - 1] == x);
            }
        }
        if ks.contains(x) {
            let j = choose|j: int| 0 <= j < ks.len() && ks[j] == x;
            if j < p {
                assert(ks2[j] == x);
            } else {
                assert(ks2[j + 1] == x);
            }
        }
        if x == k {
            assert(ks2[p] == k);
        }
    }
    assert forall|x: Seq<char>| m1.dom().contains(x) implies m1[x] == m2[x] by {
        let j = key_index(ks2, x);
        lemma_key_index(ks2, j);
        if j < p {
            assert(ks[j] == x);
            lemma_key_index(ks, j);
        } else if j > p {
            assert(ks[j - 1] == x);
            lemma_key_index(ks, j - 1);
        }
    }
    assert(m1 =~= m2);
}

/// A prefix of a distinct-key sequence has distinct keys, and extending the
/// prefix by one entry adds that entry to the map.
pub proof fn lemma_prefix_step<V>(ks: Seq<Seq<char>>, vs: Seq<V>, i: int)
    requires
        distinct_keys(ks),
        ks.len() == vs.len(),
        0 <= i < ks.len(),
    ensures
        distinct_keys(ks.take(i)),
        !ks.take(i).contains(ks[i]),
        to_map(ks.take(i + 1), vs.take(i + 1)) == to_map(ks.take(i), vs.take(i)).insert(ks[i], vs[i]),
{
    assert forall|a: int, b: int|
        0 <= a < ks.take(i).len() && 0 <= b < ks.take(i).len() && a != b implies ks.take(i)[a]
        != ks.take(i)[b] by {
        assert(ks.take(i)[a] == ks[a]);
        assert(ks.take(i)[b] == ks[b]);
    }
    if ks.take(i).contains(ks[i]) {
        let j = choose|j: int| 0 <= j < ks.take(i).len() && ks.take(i)[j] == ks[i];
        assert(ks[j] == ks[i]);
    }
    lemma_push(ks.take(i), vs.take(i), ks[i], vs[i]);
    assert(ks.take(i + 1) =~= ks.take(i).push(ks[i]));
    assert(vs.take(i + 1) =~= vs.take(i).push(vs[i]));
}

} // verus!
