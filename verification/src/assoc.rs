//! Maps given as two sequences of equal length: distinct keys, and the value
//! of each key at the key's position.

use vstd::prelude::*;

verus! {

/// The map that pairs each key with the value at the same position.
pub open spec fn pairing<K, V>(ks: Seq<K>, vs: Seq<V>) -> Map<K, V> {
    Map::new(|k: K| ks.contains(k), |k: K| vs[ks.index_of(k)])
}

/// With distinct keys, each key is paired with the value at its position.
pub proof fn lemma_pairing_at<K, V>(ks: Seq<K>, vs: Seq<V>, i: int)
    requires
        ks.no_duplicates(),
        0 <= i < ks.len(),
    ensures
        pairing(ks, vs).dom().contains(ks[i]),
        pairing(ks, vs)[ks[i]] == vs[i],
{
    assert(ks.contains(ks[i]));
    assert(ks.index_of(ks[i]) == i);
}

/// The keys of the map are the members of the key sequence.
pub proof fn lemma_pairing_dom<K, V>(ks: Seq<K>, vs: Seq<V>)
    ensures
        pairing(ks, vs).dom() == ks.to_set(),
        forall|k: K| pairing(ks, vs).dom().contains(k) <==> ks.contains(k),
{
    assert(pairing(ks, vs).dom() =~= ks.to_set());
}

/// No keys, no entries.
pub proof fn lemma_pairing_empty<K, V>()
    ensures
        pairing(Seq::<K>::empty(), Seq::<V>::empty()) == Map::<K, V>::empty(),
{
    assert(pairing(Seq::<K>::empty(), Seq::<V>::empty()) =~= Map::<K, V>::empty());
}

/// Replacing the value at a key's position is the map's `insert` at that key.
pub proof fn lemma_pairing_update<K, V>(ks: Seq<K>, vs: Seq<V>, p: int, v: V)
    requires
        ks.no_duplicates(),
        ks.len() == vs.len(),
        0 <= p < ks.len(),
    ensures
        pairing(ks, vs.update(p, v)) == pairing(ks, vs).insert(ks[p], v),
{
    let vs2 = vs.update(p, v);
    let a = pairing(ks, vs2);
    let b = pairing(ks, vs).insert(ks[p], v);
    assert(ks.contains(ks[p]));
    assert forall|m: K| a.dom().contains(m) implies a[m] == b[m] by {
        let i = choose|i: int| 0 <= i < ks.len() && ks[i] == m;
        lemma_pairing_at(ks, vs, i);
        lemma_pairing_at(ks, vs2, i);
    }
    assert(a =~= b);
}

/// Appending a new key with its value is the map's `insert`.
pub proof fn lemma_pairing_push<K, V>(ks: Seq<K>, vs: Seq<V>, k: K, v: V)
    requires
        ks.no_duplicates(),
        ks.len() == vs.len(),
        !ks.contains(k),
    ensures
        ks.push(k).no_duplicates(),
        pairing(ks.push(k), vs.push(v)) == pairing(ks, vs).insert(k, v),
{
    let ks2 = ks.push(k);
    let vs2 = vs.push(v);
    assert forall|i: int, j: int| 0 <= i < ks2.len() && 0 <= j < ks2.len() && i != j implies ks2[i]
        != ks2[j] by {
        if i < ks.len() {
            assert(ks.contains(ks[i]));
        }
        if j < ks.len() {
            assert(ks.contains(ks[j]));
        }
    }
    let a = pairing(ks2, vs2);
    let b = pairing(ks, vs).insert(k, v);
    assert forall|m: K| a.dom().contains(m) <==> b.dom().contains(m) by {
        if ks2.contains(m) {
            let i = choose|i: int| 0 <= i < ks2.len() && ks2[i] == m;
            if i < ks.len() {
                assert(ks[i] == m);
            }
        }
        if ks.contains(m) {
            let i = choose|i: int| 0 <= i < ks.len() && ks[i] == m;
            assert(ks2[i] == m);
        }
        if m == k {
            assert(ks2[ks.len() as int] == m);
        }
    }
    assert forall|m: K| a.dom().contains(m) implies a[m] == b[m] by {
        let i = choose|i: int| 0 <= i < ks2.len() && ks2[i] == m;
        lemma_pairing_at(ks2, vs2, i);
        if i < ks.len() {
            lemma_pairing_at(ks, vs, i);
        }
    }
    assert(a =~= b);
}

/// Taking a key and its value out is the map's `remove`.
pub proof fn lemma_pairing_remove<K, V>(ks: Seq<K>, vs: Seq<V>, p: int)
    requires
        ks.no_duplicates(),
        ks.len() == vs.len(),
        0 <= p < ks.len(),
    ensures
        ks.remove(p).no_duplicates(),
        pairing(ks.remove(p), vs.remove(p)) == pairing(ks, vs).remove(ks[p]),
{
    let ks2 = ks.remove(p);
    let vs2 = vs.remove(p);
    assert forall|i: int, j: int| 0 <= i < ks2.len() && 0 <= j < ks2.len() && i != j implies ks2[i]
        != ks2[j] by {
        let si = if i < p { i } else { i + 1 };
        let sj = if j < p { j } else { j + 1 };
        assert(ks2[i] == ks[si]);
        assert(ks2[j] == ks[sj]);
    }
    let a = pairing(ks2, vs2);
    let b = pairing(ks, vs).remove(ks[p]);
    assert forall|m: K| a.dom().contains(m) <==> b.dom().contains(m) by {
        if ks2.contains(m) {
            let i = choose|i: int| 0 <= i < ks2.len() && ks2[i] == m;
            let si = if i < p { i } else { i + 1 };
            assert(ks[si] == m);
            assert(ks.contains(m));
        }
        if ks.contains(m) && m != ks[p] {
            let i = choose|i: int| 0 <= i < ks.len() && ks[i] == m;
            let ti = if i < p { i } else { i - 1 };
            assert(ks2[ti] == m);
        }
    }
    assert forall|m: K| a.dom().contains(m) implies a[m] == b[m] by {
        let i = choose|i: int| 0 <= i < ks2.len() && ks2[i] == m;
        let si = if i < p { i } else { i + 1 };
        assert(ks2[i] == ks[si]);
        assert(vs2[i] == vs[si]);
        lemma_pairing_at(ks2, vs2, i);
        lemma_pairing_at(ks, vs, si);
    }
    assert(a =~= b);
}

/// The members of a prefix that is one longer are those of the prefix and
/// the element that follows it.
pub proof fn lemma_take_to_set<A>(s: Seq<A>, i: int)
    requires
        0 <= i < s.len(),
    ensures
        s.take(i + 1) == s.take(i).push(s[i]),
        s.take(i + 1).to_set() == s.take(i).to_set().insert(s[i]),
{
    let a = s.take(i);
    let b = s.take(i + 1);
    assert(b =~= a.push(s[i]));
    assert forall|m: A| b.contains(m) <==> (a.contains(m) || m == s[i]) by {
        if a.contains(m) {
            let k = choose|k: int| 0 <= k < a.len() && a[k] == m;
            assert(b[k] == m);
        }
        if m == s[i] {
            assert(b[i] == m);
        }
    }
    assert(b.to_set() =~= a.to_set().insert(s[i]));
}

/// A prefix of distinct keys does not hold the key that follows it.
pub proof fn lemma_take_distinct<A>(s: Seq<A>, i: int)
    requires
        s.no_duplicates(),
        0 <= i < s.len(),
    ensures
        s.take(i).no_duplicates(),
        !s.take(i).contains(s[i]),
{
    let a = s.take(i);
    assert forall|x: int, y: int| 0 <= x < a.len() && 0 <= y < a.len() && x != y implies a[x]
        != a[y] by {
        assert(a[x] == s[x] && a[y] == s[y]);
    }
    if a.contains(s[i]) {
        let k = choose|k: int| 0 <= k < a.len() && a[k] == s[i];
        assert(s[k] == s[i]);
    }
}

} // verus!
