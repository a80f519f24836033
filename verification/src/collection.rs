//! Lists, and sets and maps held in canonical order, over the base types.

use vstd::prelude::*;
use crate::assoc::{lemma_pairing_at, lemma_pairing_update, pairing};
use crate::scalar::{
    Scalar, ScalarModel, model_lt, lemma_model_lt_irreflexive, lemma_model_lt_transitive,
    lemma_model_lt_total, lemma_model_lt_asymmetric,
};

verus! {

/// The mathematical values of a sequence of scalars, in order.
pub open spec fn models<T: Scalar>(s: Seq<T>) -> Seq<ScalarModel> {
    Seq::new(s.len(), |i: int| s[i].model())
}

/// Each element sorts strictly before every later one.
pub open spec fn strictly_ascending(s: Seq<ScalarModel>) -> bool {
    forall|i: int, j: int| 0 <= i < j < s.len() ==> model_lt(s[i], s[j])
}

/// A strictly ascending sequence holds no element twice.
pub proof fn lemma_ascending_no_duplicates(s: Seq<ScalarModel>)
    requires
        strictly_ascending(s),
    ensures
        s.no_duplicates(),
{
    assert forall|i: int, j: int| 0 <= i < s.len() && 0 <= j < s.len() && i != j implies s[i]
        != s[j] by {
        if i < j {
            assert(model_lt(s[i], s[j]));
        } else {
            assert(model_lt(s[j], s[i]));
        }
        lemma_model_lt_irreflexive(s[i]);
    }
}

proof fn lemma_tail_members(s: Seq<ScalarModel>, t: Seq<ScalarModel>)
    requires
        s.no_duplicates(),
        s.len() > 0,
        t.len() > 0,
        s[0] == t[0],
        forall|m: ScalarModel| s.contains(m) ==> t.contains(m),
    ensures
        forall|m: ScalarModel|
            s.subrange(1, s.len() as int).contains(m) ==> t.subrange(1, t.len() as int).contains(
                m,
            ),
{
    let s1 = s.subrange(1, s.len() as int);
    let t1 = t.subrange(1, t.len() as int);
    assert forall|m: ScalarModel| s1.contains(m) implies t1.contains(m) by {
        let k = choose|k: int| 0 <= k < s1.len() && s1[k] == m;
        assert(s[k + 1] == m);
        assert(s.contains(m));
        let l = choose|l: int| 0 <= l < t.len() && t[l] == m;
        assert(l != 0);
        assert(t1[l - 1] == m);
    }
}

/// The canonical order is unique: two strictly ascending sequences with the
/// same members are the same sequence.
pub proof fn lemma_ascending_unique(s: Seq<ScalarModel>, t: Seq<ScalarModel>)
    requires
        strictly_ascending(s),
        strictly_ascending(t),
        s.to_set() == t.to_set(),
    ensures
        s == t,
    decreases s.len(),
{
    lemma_ascending_no_duplicates(s);
    lemma_ascending_no_duplicates(t);
    s.unique_seq_to_set();
    t.unique_seq_to_set();
    if s.len() == 0 {
        assert(s =~= t);
    } else {
        assert(s.contains(s[0]));
        assert(t.to_set().contains(s[0]));
        let j = choose|j: int| 0 <= j < t.len() && t[j] == s[0];
        assert(t.contains(t[0]));
        assert(s.to_set().contains(t[0]));
        let i = choose|i: int| 0 <= i < s.len() && s[i] == t[0];
        if j > 0 && i > 0 {
            assert(model_lt(t[0], t[j]));
            assert(model_lt(s[0], s[i]));
            lemma_model_lt_asymmetric(s[0], t[0]);
        }
        assert(s[0] == t[0]);
        let s1 = s.subrange(1, s.len() as int);
        let t1 = t.subrange(1, t.len() as int);
        assert(strictly_ascending(s1)) by {
            assert forall|a: int, b: int| 0 <= a < b < s1.len() implies model_lt(s1[a], s1[b]) by {
                assert(model_lt(s[a + 1], s[b + 1]));
            }
        }
        assert(strictly_ascending(t1)) by {
            assert forall|a: int, b: int| 0 <= a < b < t1.len() implies model_lt(t1[a], t1[b]) by {
                assert(model_lt(t[a + 1], t[b + 1]));
            }
        }
        assert forall|m: ScalarModel| s.contains(m) <==> t.contains(m) by {
            assert(s.to_set().contains(m) <==> s.contains(m));
            assert(t.to_set().contains(m) <==> t.contains(m));
        }
        lemma_tail_members(s, t);
        lemma_tail_members(t, s);
        assert(s1.to_set() =~= t1.to_set());
        lemma_ascending_unique(s1, t1);
        assert(s =~= t) by {
            assert forall|k: int| 0 <= k < s.len() implies s[k] == t[k] by {
                if k > 0 {
                    assert(s1[k - 1] == t1[k - 1]);
                }
            }
        }
    }
}

/// Putting a new element at its place keeps the order and adds exactly that
/// element.
pub proof fn lemma_ascending_insert(s: Seq<ScalarModel>, p: int, x: ScalarModel)
    requires
        strictly_ascending(s),
        0 <= p <= s.len(),
        forall|k: int| 0 <= k < p ==> model_lt(s[k], x),
        forall|k: int| p <= k < s.len() ==> model_lt(x, s[k]),
    ensures
        strictly_ascending(s.insert(p, x)),
        s.insert(p, x).to_set() == s.to_set().insert(x),
        !s.contains(x),
{
    let t = s.insert(p, x);
    assert forall|i: int, j: int| 0 <= i < j < t.len() implies model_lt(t[i], t[j]) by {
        if j < p {
            assert(model_lt(s[i], s[j]));
        } else if j == p {
            assert(model_lt(s[i], x));
        } else if i < p {
            assert(model_lt(s[i], s[j - 1]));
        } else if i == p {
            assert(model_lt(x, s[j - 1]));
        } else {
            assert(model_lt(s[i - 1], s[j - 1]));
        }
    }
    assert forall|m: ScalarModel| t.contains(m) <==> (s.contains(m) || m == x) by {
        if t.contains(m) {
            let k = choose|k: int| 0 <= k < t.len() && t[k] == m;
            if k < p {
                assert(s[k] == m);
            } else if k > p {
                assert(s[k - 1] == m);
            }
        }
        if s.contains(m) {
            let k = choose|k: int| 0 <= k < s.len() && s[k] == m;
            if k < p {
                assert(t[k] == m);
            } else {
                assert(t[k + 1] == m);
            }
        }
        if m == x {
            assert(t[p] == m);
        }
    }
    assert(t.to_set() =~= s.to_set().insert(x));
    if s.contains(x) {
        let k = choose|k: int| 0 <= k < s.len() && s[k] == x;
        lemma_model_lt_irreflexive(x);
    }
}

/// Finds `x` in a strictly ascending vector by bisection. The second
/// component is the position of `x` if it is there, and the position where
/// it belongs if it is not.
fn locate<T: Scalar>(items: &Vec<T>, x: &T) -> (r: (bool, usize))
    requires
        strictly_ascending(models(items@)),
    ensures
        r.1 <= items.len(),
        forall|k: int| 0 <= k < r.1 ==> model_lt(#[trigger] models(items@)[k], x.model()),
        r.0 ==> r.1 < items.len() && models(items@)[r.1 as int] == x.model(),
        !r.0 ==> forall|k: int|
            r.1 <= k < items.len() ==> model_lt(x.model(), #[trigger] models(items@)[k]),
        r.0 == models(items@).contains(x.model()),
{
    let ghost ms = models(items@);
    let ghost xm = x.model();
    let mut lo: usize = 0;
    let mut hi: usize = items.len();
    while lo < hi
        invariant
            lo <= hi <= items.len(),
            ms == models(items@),
            xm == x.model(),
            strictly_ascending(ms),
            forall|k: int| 0 <= k < lo ==> model_lt(#[trigger] ms[k], xm),
            forall|k: int| hi <= k < items.len() ==> !model_lt(#[trigger] ms[k], xm),
        decreases hi - lo,
    {
        let mid = lo + (hi - lo) / 2;
        if items[mid].less(x) {
            proof {
                assert forall|k: int| 0 <= k < mid + 1 implies model_lt(#[trigger] ms[k], xm) by {
                    if k < mid {
                        assert(model_lt(ms[k], ms[mid as int]));
                        lemma_model_lt_transitive(ms[k], ms[mid as int], xm);
                    }
                }
            }
            lo = mid + 1;
        } else {
            proof {
                assert forall|k: int| mid <= k < items.len() implies !model_lt(
                    #[trigger] ms[k],
                    xm,
                ) by {
                    if k > mid && model_lt(ms[k], xm) {
                        assert(model_lt(ms[mid as int], ms[k]));
                        lemma_model_lt_transitive(ms[mid as int], ms[k], xm);
                    }
                }
            }
            hi = mid;
        }
    }
    let found = lo < items.len() && items[lo].same(x);
    proof {
        if found {
            assert(ms[lo as int] == xm);
        } else {
            assert forall|k: int| lo <= k < items.len() implies model_lt(xm, #[trigger] ms[k]) by {
                lemma_model_lt_total(ms[k], xm);
                if ms[k] == xm {
                    assert(k > lo);
                    assert(model_lt(ms[lo as int], ms[k]));
                }
            }
            if ms.contains(xm) {
                let k = choose|k: int| 0 <= k < ms.len() && ms[k] == xm;
                lemma_model_lt_irreflexive(xm);
                if k < lo {
                    assert(model_lt(ms[k], xm));
                } else {
                    assert(model_lt(xm, ms[k]));
                }
            }
        }
    }
    (found, lo)
}

/// Copies a vector of scalars, value by value.
pub fn dup_all<T: Scalar>(items: &Vec<T>) -> (r: Vec<T>)
    ensures
        models(r@) == models(items@),
{
    let mut out: Vec<T> = Vec::with_capacity(items.len());
    let mut i: usize = 0;
    while i < items.len()
        invariant
            i <= items.len(),
            out.len() == i,
            forall|k: int| 0 <= k < i ==> out@[k].model() == items@[k].model(),
        decreases items.len() - i,
    {
        out.push(items[i].dup());
        i += 1;
    }
    assert(models(out@) =~= models(items@));
    out
}

/// Whether two vectors hold the same scalars in the same order.
pub fn same_all<T: Scalar>(a: &Vec<T>, b: &Vec<T>) -> (r: bool)
    ensures
        r == (models(a@) == models(b@)),
{
    if a.len() != b.len() {
        assert(models(a@).len() != models(b@).len());
        return false;
    }
    let mut i: usize = 0;
    while i < a.len()
        invariant
            i <= a.len(),
            a.len() == b.len(),
            forall|k: int| 0 <= k < i ==> a@[k].model() == b@[k].model(),
        decreases a.len() - i,
    {
        if !a[i].same(&b[i]) {
            assert(models(a@)[i as int] != models(b@)[i as int]);
            return false;
        }
        i += 1;
    }
    assert(models(a@) =~= models(b@));
    true
}

/// A set of scalars of one base type, held without repetition in ascending
/// order.
#[derive(Debug)]
pub struct SortedSet<T: Scalar> {
    items: Vec<T>,
}

impl<T: Scalar> SortedSet<T> {
    #[verifier::type_invariant]
    spec fn ordered(self) -> bool {
        strictly_ascending(models(self.items@))
    }

    /// The members in canonical order.
    pub closed spec fn seq(self) -> Seq<ScalarModel> {
        models(self.items@)
    }

    /// The members.
    pub open spec fn members(self) -> Set<ScalarModel> {
        self.seq().to_set()
    }

    /// The empty set.
    pub fn new() -> (r: Self)
        ensures
            r.seq() == Seq::<ScalarModel>::empty(),
    {
        let r = SortedSet { items: Vec::new() };
        assert(r.seq() =~= Seq::<ScalarModel>::empty());
        r
    }

    /// The number of members.
    pub fn len(&self) -> (r: usize)
        ensures
            r == self.seq().len(),
            r == self.members().len(),
            strictly_ascending(self.seq()),
    {
        proof {
            use_type_invariant(self);
            lemma_ascending_no_duplicates(self.seq());
            self.seq().unique_seq_to_set();
        }
        self.items.len()
    }

    /// The member at position `i` of the canonical order.
    pub fn item(&self, i: usize) -> (r: &T)
        requires
            i < self.seq().len(),
        ensures
            r.model() == self.seq()[i as int],
    {
        &self.items[i]
    }

    /// Whether `x` is a member.
    pub fn contains(&self, x: &T) -> (r: bool)
        ensures
            r == self.members().contains(x.model()),
    {
        proof {
            use_type_invariant(self);
        }
        locate(&self.items, x).0
    }

    /// Adds `x`. Returns whether it was new.
    pub fn insert(&mut self, x: T) -> (r: bool)
        ensures
            final(self).members() == old(self).members().insert(x.model()),
            r == !old(self).members().contains(x.model()),
    {
        proof {
            use_type_invariant(&*self);
        }
        let (found, p) = locate(&self.items, &x);
        if found {
            assert(self.members().insert(x.model()) =~= self.members());
            return false;
        }
        let mut items: Vec<T> = Vec::new();
        std::mem::swap(&mut items, &mut self.items);
        let ghost before = models(items@);
        let ghost xm = x.model();
        items.insert(p, x);
        proof {
            lemma_ascending_insert(before, p as int, xm);
            assert(models(items@) =~= before.insert(p as int, xm));
        }
        self.items = items;
        true
    }

    /// The set of the given items, whatever their order and however often
    /// each occurs.
    pub fn from_vec(items: Vec<T>) -> (r: Self)
        ensures
            r.members() == models(items@).to_set(),
    {
        let mut out: SortedSet<T> = SortedSet::new();
        let mut i: usize = 0;
        let ghost ms = models(items@);
        while i < items.len()
            invariant
                i <= items.len(),
                ms == models(items@),
                out.members() == ms.take(i as int).to_set(),
            decreases items.len() - i,
        {
            let x = items[i].dup();
            out.insert(x);
            proof {
                let a = ms.take(i as int);
                let b = ms.take(i + 1);
                assert(b =~= a.push(ms[i as int]));
                assert forall|m: ScalarModel| b.contains(m) <==> (a.contains(m) || m == ms[i as int]) by {
                    if a.contains(m) {
                        let k = choose|k: int| 0 <= k < a.len() && a[k] == m;
                        assert(b[k] == m);
                    }
                    if m == ms[i as int] {
                        assert(b[i as int] == m);
                    }
                }
                assert(b.to_set() =~= a.to_set().insert(ms[i as int]));
            }
            i += 1;
        }
        assert(ms.take(items.len() as int) =~= ms);
        out
    }

    /// Whether both sets have the same members.
    pub fn same(&self, other: &Self) -> (r: bool)
        ensures
            r == (self.members() == other.members()),
            r == (self.seq() == other.seq()),
    {
        proof {
            use_type_invariant(self);
            use_type_invariant(other);
            if self.members() == other.members() {
                lemma_ascending_unique(self.seq(), other.seq());
            }
        }
        same_all(&self.items, &other.items)
    }

    /// A copy with the same members.
    pub fn dup(&self) -> (r: Self)
        ensures
            r.seq() == self.seq(),
    {
        proof {
            use_type_invariant(self);
        }
        SortedSet { items: dup_all(&self.items) }
    }
}

/// Putting a new key at its place, and its value at the same place, is the
/// map's `insert`.
pub proof fn lemma_pairing_insert(
    ks: Seq<ScalarModel>,
    vs: Seq<ScalarModel>,
    p: int,
    k: ScalarModel,
    v: ScalarModel,
)
    requires
        strictly_ascending(ks),
        ks.len() == vs.len(),
        0 <= p <= ks.len(),
        forall|i: int| 0 <= i < p ==> model_lt(ks[i], k),
        forall|i: int| p <= i < ks.len() ==> model_lt(k, ks[i]),
    ensures
        strictly_ascending(ks.insert(p, k)),
        pairing(ks.insert(p, k), vs.insert(p, v)) == pairing(ks, vs).insert(k, v),
{
    let ks2 = ks.insert(p, k);
    let vs2 = vs.insert(p, v);
    lemma_ascending_insert(ks, p, k);
    lemma_ascending_no_duplicates(ks);
    lemma_ascending_no_duplicates(ks2);
    let a = pairing(ks2, vs2);
    let b = pairing(ks, vs).insert(k, v);
    assert forall|m: ScalarModel| a.dom().contains(m) <==> b.dom().contains(m) by {
        assert(ks2.to_set().contains(m) <==> ks2.contains(m));
        assert(ks.to_set().contains(m) <==> ks.contains(m));
    }
    assert forall|m: ScalarModel| a.dom().contains(m) implies a[m] == b[m] by {
        if m == k {
            lemma_pairing_at(ks2, vs2, p);
        } else {
            assert(ks.contains(m));
            let i = choose|i: int| 0 <= i < ks.len() && ks[i] == m;
            lemma_pairing_at(ks, vs, i);
            if i < p {
                lemma_pairing_at(ks2, vs2, i);
            } else {
                lemma_pairing_at(ks2, vs2, i + 1);
            }
        }
    }
    assert(a =~= b);
}

/// A map has one canonical form: equal maps have equal key and value
/// sequences.
pub proof fn lemma_pairing_unique(
    ks1: Seq<ScalarModel>,
    vs1: Seq<ScalarModel>,
    ks2: Seq<ScalarModel>,
    vs2: Seq<ScalarModel>,
)
    requires
        strictly_ascending(ks1),
        strictly_ascending(ks2),
        ks1.len() == vs1.len(),
        ks2.len() == vs2.len(),
        pairing(ks1, vs1) == pairing(ks2, vs2),
    ensures
        ks1 == ks2,
        vs1 == vs2,
{
    assert(ks1.to_set() =~= pairing(ks1, vs1).dom());
    assert(ks2.to_set() =~= pairing(ks2, vs2).dom());
    lemma_ascending_unique(ks1, ks2);
    lemma_ascending_no_duplicates(ks1);
    assert forall|i: int| 0 <= i < vs1.len() implies vs1[i] == vs2[i] by {
        lemma_pairing_at(ks1, vs1, i);
        lemma_pairing_at(ks2, vs2, i);
    }
    assert(vs1 =~= vs2);
}

/// The mathematical values of a sequence of key-value pairs, in order.
pub open spec fn pair_models<K: Scalar, V: Scalar>(s: Seq<(K, V)>) -> Seq<
    (ScalarModel, ScalarModel),
> {
    Seq::new(s.len(), |i: int| (s[i].0.model(), s[i].1.model()))
}

/// The map that results from inserting the pairs one after the other, so
/// that of two pairs with one key the later one stays.
pub open spec fn fold_pairs(ps: Seq<(ScalarModel, ScalarModel)>) -> Map<ScalarModel, ScalarModel>
    decreases ps.len(),
{
    if ps.len() == 0 {
        Map::empty()
    } else {
        fold_pairs(ps.drop_last()).insert(ps.last().0, ps.last().1)
    }
}

/// A map from scalars of one base type to scalars of one base type, held in
/// ascending order of its keys.
#[derive(Debug)]
pub struct SortedMap<K: Scalar, V: Scalar> {
    keys: Vec<K>,
    values: Vec<V>,
}

impl<K: Scalar, V: Scalar> SortedMap<K, V> {
    #[verifier::type_invariant]
    spec fn ordered(self) -> bool {
        &&& self.keys.len() == self.values.len()
        &&& strictly_ascending(models(self.keys@))
    }

    /// The keys in canonical order.
    pub closed spec fn key_seq(self) -> Seq<ScalarModel> {
        models(self.keys@)
    }

    /// The values, each at the position of its key.
    pub closed spec fn value_seq(self) -> Seq<ScalarModel> {
        models(self.values@)
    }

    /// The map.
    pub open spec fn map(self) -> Map<ScalarModel, ScalarModel> {
        pairing(self.key_seq(), self.value_seq())
    }

    /// The empty map.
    pub fn new() -> (r: Self)
        ensures
            r.key_seq() == Seq::<ScalarModel>::empty(),
            r.value_seq() == Seq::<ScalarModel>::empty(),
            r.map() == Map::<ScalarModel, ScalarModel>::empty(),
    {
        let r = SortedMap { keys: Vec::new(), values: Vec::new() };
        assert(r.key_seq() =~= Seq::<ScalarModel>::empty());
        assert(r.value_seq() =~= Seq::<ScalarModel>::empty());
        assert(r.map() =~= Map::<ScalarModel, ScalarModel>::empty());
        r
    }

    /// The number of entries.
    pub fn len(&self) -> (r: usize)
        ensures
            r == self.key_seq().len(),
            r == self.value_seq().len(),
            r == self.map().dom().len(),
            strictly_ascending(self.key_seq()),
    {
        proof {
            use_type_invariant(self);
            lemma_ascending_no_duplicates(self.key_seq());
            self.key_seq().unique_seq_to_set();
            assert(self.key_seq().to_set() =~= self.map().dom());
        }
        self.keys.len()
    }

    /// The key at position `i` of the canonical order.
    pub fn key(&self, i: usize) -> (r: &K)
        requires
            i < self.key_seq().len(),
        ensures
            r.model() == self.key_seq()[i as int],
            self.map().dom().contains(r.model()),
    {
        proof {
            use_type_invariant(self);
            lemma_ascending_no_duplicates(self.key_seq());
            lemma_pairing_at(self.key_seq(), self.value_seq(), i as int);
        }
        &self.keys[i]
    }

    /// The value of the key at position `i` of the canonical order.
    pub fn value(&self, i: usize) -> (r: &V)
        requires
            i < self.key_seq().len(),
        ensures
            r.model() == self.value_seq()[i as int],
            r.model() == self.map()[self.key_seq()[i as int]],
    {
        proof {
            use_type_invariant(self);
            lemma_ascending_no_duplicates(self.key_seq());
            lemma_pairing_at(self.key_seq(), self.value_seq(), i as int);
        }
        &self.values[i]
    }

    /// The value of `k`, if it has one.
    pub fn get(&self, k: &K) -> (r: Option<&V>)
        ensures
            r.is_some() == self.map().dom().contains(k.model()),
            r matches Some(v) ==> v.model() == self.map()[k.model()],
    {
        proof {
            use_type_invariant(self);
            lemma_ascending_no_duplicates(self.key_seq());
        }
        let (found, p) = locate(&self.keys, k);
        if found {
            proof {
                lemma_pairing_at(self.key_seq(), self.value_seq(), p as int);
            }
            Some(&self.values[p])
        } else {
            None
        }
    }

    /// Gives `k` the value `v`. Returns whether `k` was new.
    pub fn insert(&mut self, k: K, v: V) -> (r: bool)
        ensures
            final(self).map() == old(self).map().insert(k.model(), v.model()),
            r == !old(self).map().dom().contains(k.model()),
    {
        proof {
            use_type_invariant(&*self);
            lemma_ascending_no_duplicates(self.key_seq());
        }
        let (found, p) = locate(&self.keys, &k);
        let mut taken: SortedMap<K, V> = SortedMap::new();
        std::mem::swap(&mut taken, self);
        let SortedMap { mut keys, mut values } = taken;
        let ghost ks = models(keys@);
        let ghost vs = models(values@);
        let ghost km = k.model();
        let ghost vm = v.model();
        if found {
            values.set(p, v);
            proof {
                lemma_pairing_update(ks, vs, p as int, vm);
                assert(models(values@) =~= vs.update(p as int, vm));
            }
        } else {
            keys.insert(p, k);
            values.insert(p, v);
            proof {
                lemma_pairing_insert(ks, vs, p as int, km, vm);
                assert(models(keys@) =~= ks.insert(p as int, km));
                assert(models(values@) =~= vs.insert(p as int, vm));
            }
        }
        *self = SortedMap { keys, values };
        !found
    }

    /// The map of the given pairs; of two pairs with one key the later one
    /// stays.
    pub fn from_pairs(pairs: Vec<(K, V)>) -> (r: Self)
        ensures
            r.map() == fold_pairs(pair_models(pairs@)),
    {
        let mut out: SortedMap<K, V> = SortedMap::new();
        let mut i: usize = 0;
        let ghost ps = pair_models(pairs@);
        while i < pairs.len()
            invariant
                i <= pairs.len(),
                ps == pair_models(pairs@),
                out.map() == fold_pairs(ps.take(i as int)),
            decreases pairs.len() - i,
        {
            let k = pairs[i].0.dup();
            let v = pairs[i].1.dup();
            out.insert(k, v);
            proof {
                assert(ps.take(i + 1).drop_last() =~= ps.take(i as int));
            }
            i += 1;
        }
        assert(ps.take(pairs.len() as int) =~= ps);
        out
    }

    /// Whether both maps pair the same keys with the same values.
    pub fn same(&self, other: &Self) -> (r: bool)
        ensures
            r == (self.map() == other.map()),
    {
        proof {
            use_type_invariant(self);
            use_type_invariant(other);
            if self.map() == other.map() {
                lemma_pairing_unique(
                    self.key_seq(),
                    self.value_seq(),
                    other.key_seq(),
                    other.value_seq(),
                );
            }
        }
        same_all(&self.keys, &other.keys) && same_all(&self.values, &other.values)
    }

    /// A copy with the same entries.
    pub fn dup(&self) -> (r: Self)
        ensures
            r.key_seq() == self.key_seq(),
            r.value_seq() == self.value_seq(),
            r.map() == self.map(),
    {
        proof {
            use_type_invariant(self);
        }
        let keys = dup_all(&self.keys);
        let values = dup_all(&self.values);
        assert(models(keys@).len() == models(self.keys@).len());
        assert(models(values@).len() == models(self.values@).len());
        SortedMap { keys, values }
    }
}

} // verus!
