//! Objects: one record's attributes by name.

use vstd::prelude::*;
use crate::assoc::{
    lemma_pairing_at, lemma_pairing_dom, lemma_pairing_empty, lemma_pairing_push,
    lemma_pairing_update, lemma_take_distinct, lemma_take_to_set, pairing,
};
use crate::error::Error;
use crate::value::{loosely_equal, zero_model, Value, ValueModel};

verus! {

/// The names of a sequence of strings, as character sequences.
pub open spec fn name_views(s: Seq<String>) -> Seq<Seq<char>> {
    Seq::new(s.len(), |i: int| s[i]@)
}

/// The contents of a sequence of values.
pub open spec fn value_views(s: Seq<Value>) -> Seq<ValueModel> {
    Seq::new(s.len(), |i: int| s[i]@)
}

/// The attributes of an object: name to content.
pub type Attrs = Map<Seq<char>, ValueModel>;

/// The value that stands for attribute `n` of `a` when `a` is compared with
/// `b`: its own value, or, where `a` lacks the attribute, the zero value of
/// the type that `b` has there.
pub open spec fn attr_or_zero(a: Attrs, b: Attrs, n: Seq<char>) -> ValueModel {
    if a.dom().contains(n) {
        a[n]
    } else {
        zero_model(b[n].value_type())
    }
}

/// Whether no attribute has different types in the two objects.
pub open spec fn objects_comparable(a: Attrs, b: Attrs) -> bool {
    forall|n: Seq<char>|
        a.dom().contains(n) && b.dom().contains(n) ==> a[n].value_type() == b[n].value_type()
}

/// Equality of objects, attribute by attribute, where an attribute that one
/// side lacks counts as the zero value of its type.
pub open spec fn objects_equal(a: Attrs, b: Attrs) -> bool {
    forall|n: Seq<char>| a.dom().contains(n) || b.dom().contains(n) ==> attr_agrees(a, b, n)
}

/// Whether the two objects agree on attribute `n`.
pub open spec fn attr_agrees(a: Attrs, b: Attrs, n: Seq<char>) -> bool {
    attr_or_zero(a, b, n) == attr_or_zero(b, a, n)
}

/// Whether the two objects agree loosely on attribute `n`; see
/// [`loosely_equal`]. As in [`attr_agrees`], an attribute that one side
/// lacks counts there as the zero value of its type.
pub open spec fn attr_loosely_agrees(a: Attrs, b: Attrs, n: Seq<char>) -> bool {
    loosely_equal(attr_or_zero(a, b, n), attr_or_zero(b, a, n))
}

/// Equality of objects over the attributes of both, where the values of an
/// attribute need only be loosely equal.
pub open spec fn objects_loosely_equal(a: Attrs, b: Attrs) -> bool {
    forall|n: Seq<char>|
        a.dom().contains(n) || b.dom().contains(n) ==> attr_loosely_agrees(a, b, n)
}

/// A mapping from attribute name to value, with each name at most once.
#[derive(Debug)]
pub struct Object {
    names: Vec<String>,
    values: Vec<Value>,
}

impl View for Object {
    type V = Attrs;

    open spec fn view(&self) -> Attrs {
        pairing(self.name_seq(), self.value_seq())
    }
}

impl Object {
    #[verifier::type_invariant]
    spec fn well_formed(self) -> bool {
        &&& self.names.len() == self.values.len()
        &&& name_views(self.names@).no_duplicates()
    }

    /// The names, in the order in which they were added.
    pub closed spec fn name_seq(self) -> Seq<Seq<char>> {
        name_views(self.names@)
    }

    /// The values, each at the position of its name.
    pub closed spec fn value_seq(self) -> Seq<ValueModel> {
        value_views(self.values@)
    }

    /// The object without attributes.
    pub fn new() -> (r: Object)
        ensures
            r@ == Map::<Seq<char>, ValueModel>::empty(),
            r.name_seq().len() == 0,
    {
        let r = Object { names: Vec::new(), values: Vec::new() };
        proof {
            assert(r.name_seq() =~= Seq::<Seq<char>>::empty());
            assert(r.value_seq() =~= Seq::<ValueModel>::empty());
            lemma_pairing_empty::<Seq<char>, ValueModel>();
        }
        r
    }

    /// The number of attributes.
    pub fn len(&self) -> (r: usize)
        ensures
            r == self.name_seq().len(),
            r == self.value_seq().len(),
            r == self@.dom().len(),
            self.name_seq().no_duplicates(),
    {
        proof {
            use_type_invariant(self);
            self.name_seq().unique_seq_to_set();
            lemma_pairing_dom(self.name_seq(), self.value_seq());
        }
        self.names.len()
    }

    /// The name at position `i`.
    pub fn name(&self, i: usize) -> (r: &String)
        requires
            i < self.name_seq().len(),
        ensures
            r@ == self.name_seq()[i as int],
            self@.dom().contains(r@),
    {
        proof {
            use_type_invariant(self);
            lemma_pairing_at(self.name_seq(), self.value_seq(), i as int);
        }
        &self.names[i]
    }

    /// The value of the name at position `i`.
    pub fn value(&self, i: usize) -> (r: &Value)
        requires
            i < self.name_seq().len(),
        ensures
            r@ == self.value_seq()[i as int],
            r@ == self@[self.name_seq()[i as int]],
    {
        proof {
            use_type_invariant(self);
            lemma_pairing_at(self.name_seq(), self.value_seq(), i as int);
        }
        &self.values[i]
    }

    fn find(&self, name: &String) -> (r: Option<usize>)
        ensures
            r matches Some(i) ==> i < self.name_seq().len() && self.name_seq()[i as int] == name@,
            r is None ==> !self.name_seq().contains(name@),
            r.is_some() == self@.dom().contains(name@),
    {
        let mut i: usize = 0;
        while i < self.names.len()
            invariant
                i <= self.names.len(),
                forall|k: int| 0 <= k < i ==> self.name_seq()[k] != name@,
            decreases self.names.len() - i,
        {
            if self.names[i] == *name {
                proof {
                    assert(self.name_seq()[i as int] == name@);
                    assert(self.name_seq().contains(name@));
                }
                return Some(i);
            }
            i += 1;
        }
        None
    }

    /// The value of the attribute `name`, if the object has it.
    pub fn get(&self, name: &String) -> (r: Option<&Value>)
        ensures
            r.is_some() == self@.dom().contains(name@),
            r matches Some(v) ==> v@ == self@[name@],
    {
        proof {
            use_type_invariant(self);
        }
        match self.find(name) {
            Some(i) => {
                proof {
                    lemma_pairing_at(self.name_seq(), self.value_seq(), i as int);
                }
                Some(&self.values[i])
            },
            None => None,
        }
    }

    /// Whether the object has the attribute `name`.
    pub fn has(&self, name: &String) -> (r: bool)
        ensures
            r == self@.dom().contains(name@),
    {
        self.find(name).is_some()
    }

    /// The object with one more attribute. A name that the object already
    /// has is an `InvalidArgument`: no write wins over another.
    pub fn with(self, name: String, value: Value) -> (r: Result<Object, Error>)
        ensures
            self@.dom().contains(name@) ==> r == Err::<Object, Error>(Error::InvalidArgument),
            !self@.dom().contains(name@) ==> r.is_ok() && r.unwrap()@ == self@.insert(
                name@,
                value@,
            ),
    {
        proof {
            use_type_invariant(&self);
        }
        if self.find(&name).is_some() {
            return Err(Error::InvalidArgument);
        }
        let ghost ks = self.name_seq();
        let ghost vs = self.value_seq();
        let ghost n = name@;
        let ghost v = value@;
        let Object { mut names, mut values } = self;
        names.push(name);
        values.push(value);
        proof {
            lemma_pairing_push(ks, vs, n, v);
            assert(name_views(names@) =~= ks.push(n));
            assert(value_views(values@) =~= vs.push(v));
        }
        Ok(Object { names, values })
    }

    /// Gives the attribute `name` the value `value`, whether or not the
    /// object had it.
    pub fn set(&mut self, name: String, value: Value)
        ensures
            final(self)@ == old(self)@.insert(name@, value@),
    {
        proof {
            use_type_invariant(&*self);
        }
        let found = self.find(&name);
        let ghost ks = self.name_seq();
        let ghost vs = self.value_seq();
        let ghost n = name@;
        let ghost v = value@;
        let mut taken = Object::new();
        std::mem::swap(&mut taken, self);
        let Object { mut names, mut values } = taken;
        match found {
            Some(i) => {
                values.set(i, value);
                proof {
                    lemma_pairing_update(ks, vs, i as int, v);
                    assert(value_views(values@) =~= vs.update(i as int, v));
                }
            },
            None => {
                names.push(name);
                values.push(value);
                proof {
                    lemma_pairing_push(ks, vs, n, v);
                    assert(name_views(names@) =~= ks.push(n));
                    assert(value_views(values@) =~= vs.push(v));
                }
            },
        }
        *self = Object { names, values };
    }

    /// A copy with the same attributes.
    pub fn dup(&self) -> (r: Object)
        ensures
            r@ == self@,
            r.name_seq() == self.name_seq(),
            r.value_seq() == self.value_seq(),
    {
        proof {
            use_type_invariant(self);
        }
        let mut names: Vec<String> = Vec::new();
        let mut values: Vec<Value> = Vec::new();
        let mut i: usize = 0;
        while i < self.names.len()
            invariant
                i <= self.names.len(),
                self.names.len() == self.values.len(),
                names.len() == i,
                values.len() == i,
                forall|k: int| 0 <= k < i ==> names@[k]@ == self.names@[k]@,
                forall|k: int| 0 <= k < i ==> values@[k]@ == self.values@[k]@,
            decreases self.names.len() - i,
        {
            names.push(self.names[i].clone());
            values.push(self.values[i].dup());
            i += 1;
        }
        proof {
            assert(name_views(names@) =~= name_views(self.names@));
            assert(value_views(values@) =~= value_views(self.values@));
        }
        Object { names, values }
    }

    /// The object restricted to the attributes named. A name that the
    /// object does not have is an `InvalidArgument`.
    pub fn project(&self, names: &Vec<String>) -> (r: Result<Object, Error>)
        ensures
            !name_views(names@).to_set().subset_of(self@.dom()) ==> r == Err::<Object, Error>(
                Error::InvalidArgument,
            ),
            name_views(names@).to_set().subset_of(self@.dom()) ==> r.is_ok() && r.unwrap()@
                == self@.restrict(name_views(names@).to_set()),
    {
        let ghost ns = name_views(names@);
        let mut out = Object::new();
        let mut i: usize = 0;
        proof {
            assert(ns.take(0).to_set() =~= Set::<Seq<char>>::empty());
            assert(out@ =~= self@.restrict(ns.take(0).to_set()));
        }
        while i < names.len()
            invariant
                i <= names.len(),
                ns == name_views(names@),
                ns.take(i as int).to_set().subset_of(self@.dom()),
                out@ == self@.restrict(ns.take(i as int).to_set()),
            decreases names.len() - i,
        {
            proof {
                lemma_take_to_set(ns, i as int);
            }
            match self.get(&names[i]) {
                None => {
                    proof {
                        assert(ns.contains(ns[i as int]));
                        assert(ns.to_set().contains(ns[i as int]));
                    }
                    return Err(Error::InvalidArgument);
                },
                Some(v) => {
                    out.set(names[i].clone(), v.dup());
                    proof {
                        assert(out@ =~= self@.restrict(ns.take(i + 1).to_set()));
                    }
                },
            }
            i += 1;
        }
        proof {
            assert(ns.take(names.len() as int) =~= ns);
        }
        Ok(out)
    }

    /// The object after a partial update: every attribute of `update` with
    /// the update's value, every other attribute as it was.
    pub fn merged(&self, update: &Object) -> (r: Object)
        ensures
            r@ == self@.union_prefer_right(update@),
    {
        proof {
            use_type_invariant(update);
        }
        let ghost uks = update.name_seq();
        let ghost uvs = update.value_seq();
        let mut out = self.dup();
        let mut i: usize = 0;
        proof {
            assert(uks.take(0) =~= Seq::<Seq<char>>::empty());
            assert(uvs.take(0) =~= Seq::<ValueModel>::empty());
            lemma_pairing_empty::<Seq<char>, ValueModel>();
            assert(out@ =~= self@.union_prefer_right(pairing(uks.take(0), uvs.take(0))));
        }
        while i < update.names.len()
            invariant
                i <= update.names.len(),
                update.names.len() == update.values.len(),
                uks == update.name_seq(),
                uvs == update.value_seq(),
                uks.no_duplicates(),
                out@ == self@.union_prefer_right(pairing(uks.take(i as int), uvs.take(i as int))),
            decreases update.names.len() - i,
        {
            out.set(update.names[i].clone(), update.values[i].dup());
            proof {
                let ki = uks.take(i as int);
                let vi = uvs.take(i as int);
                lemma_take_distinct(uks, i as int);
                lemma_pairing_push(ki, vi, uks[i as int], uvs[i as int]);
                assert(uks.take(i + 1) =~= ki.push(uks[i as int]));
                assert(uvs.take(i + 1) =~= vi.push(uvs[i as int]));
                assert(out@ =~= self@.union_prefer_right(
                    pairing(uks.take(i + 1), uvs.take(i + 1)),
                ));
            }
            i += 1;
        }
        proof {
            assert(uks.take(update.names.len() as int) =~= uks);
            assert(uvs.take(update.names.len() as int) =~= uvs);
        }
        out
    }

    /// Equality of two objects, attribute by attribute; an attribute that
    /// one side lacks counts there as the zero value of its type. An
    /// attribute that the two hold with different types is an
    /// `InvalidArgument`.
    pub fn same(&self, other: &Object) -> (r: Result<bool, Error>)
        ensures
            !objects_comparable(self@, other@) ==> r == Err::<bool, Error>(Error::InvalidArgument),
            objects_comparable(self@, other@) ==> r == Ok::<bool, Error>(
                objects_equal(self@, other@),
            ),
    {
        let ghost a = self@;
        let ghost b = other@;
        let ghost ks = self.name_seq();
        let ghost ms = other.name_seq();
        let n = self.len();
        let m = other.len();
        let mut equal = true;
        let mut i: usize = 0;
        while i < n
            invariant
                i <= n,
                n == self.name_seq().len(),
                a == self@,
                b == other@,
                ks == self.name_seq(),
                forall|k: int|
                    0 <= k < i && b.dom().contains(#[trigger] ks[k]) ==> a[ks[k]].value_type()
                        == b[ks[k]].value_type(),
                equal == (forall|k: int| 0 <= k < i ==> attr_agrees(a, b, #[trigger] ks[k])),
            decreases n - i,
        {
            let name = self.name(i);
            let v = self.value(i);
            let agrees = match other.get(name) {
                Some(w) => {
                    match v.same(w) {
                        Ok(e) => e,
                        Err(_) => {
                            return Err(Error::InvalidArgument);
                        },
                    }
                },
                None => {
                    let z = Value::zero(v.value_type());
                    match v.same(&z) {
                        Ok(e) => e,
                        Err(_) => false,
                    }
                },
            };
            assert(agrees == attr_agrees(a, b, ks[i as int]));
            if !agrees {
                equal = false;
            }
            i += 1;
        }
        let mut j: usize = 0;
        while j < m
            invariant
                j <= m,
                m == other.name_seq().len(),
                n == self.name_seq().len(),
                a == self@,
                b == other@,
                ks == self.name_seq(),
                ms == other.name_seq(),
                forall|k: int|
                    0 <= k < n && b.dom().contains(#[trigger] ks[k]) ==> a[ks[k]].value_type()
                        == b[ks[k]].value_type(),
                equal == ((forall|k: int| 0 <= k < n ==> attr_agrees(a, b, #[trigger] ks[k]))
                    && (forall|k: int| 0 <= k < j ==> attr_agrees(a, b, #[trigger] ms[k]))),
            decreases m - j,
        {
            let name = other.name(j);
            let w = other.value(j);
            if !self.has(name) {
                let z = Value::zero(w.value_type());
                let agrees = match w.same(&z) {
                    Ok(e) => e,
                    Err(_) => false,
                };
                assert(agrees == attr_agrees(a, b, ms[j as int]));
                if !agrees {
                    equal = false;
                }
            } else {
                proof {
                    lemma_pairing_dom(ks, self.value_seq());
                    let k = choose|k: int| 0 <= k < ks.len() && ks[k] == ms[j as int];
                    assert(attr_agrees(a, b, ks[k]) == attr_agrees(a, b, ms[j as int]));
                }
            }
            j += 1;
        }
        proof {
            lemma_pairing_dom(ks, self.value_seq());
            lemma_pairing_dom(ms, other.value_seq());
            assert(objects_comparable(a, b)) by {
                assert forall|x: Seq<char>| a.dom().contains(x) && b.dom().contains(x) implies a[x].value_type()
                    == b[x].value_type() by {
                    let k = choose|k: int| 0 <= k < ks.len() && ks[k] == x;
                    assert(b.dom().contains(ks[k]));
                }
            }
            if equal {
                assert forall|x: Seq<char>| a.dom().contains(x) || b.dom().contains(x) implies attr_agrees(
                    a,
                    b,
                    x,
                ) by {
                    if a.dom().contains(x) {
                        let k = choose|k: int| 0 <= k < ks.len() && ks[k] == x;
                        assert(attr_agrees(a, b, ks[k]));
                    } else {
                        let k = choose|k: int| 0 <= k < ms.len() && ms[k] == x;
                        assert(attr_agrees(a, b, ms[k]));
                    }
                }
            } else {
                if forall|k: int| 0 <= k < n ==> attr_agrees(a, b, #[trigger] ks[k]) {
                    let k = choose|k: int| 0 <= k < m && !attr_agrees(a, b, #[trigger] ms[k]);
                    assert(b.dom().contains(ms[k])) by {
                        assert(ms.contains(ms[k]));
                    }
                } else {
                    let k = choose|k: int| 0 <= k < n && !attr_agrees(a, b, #[trigger] ks[k]);
                    assert(a.dom().contains(ks[k])) by {
                        assert(ks.contains(ks[k]));
                    }
                }
            }
        }
        Ok(equal)
    }
}

/// Equality of two objects that never fails: the objects are compared
/// attribute by attribute over the names of both, and an attribute that one
/// side lacks counts there as the zero value of its type.
///
/// Two values of one type are equal as [`Value::same`] says. Two values of
/// different types are not equal, with one exception that is this
/// function's choice: two empty collections of one shape (two lists, two
/// sets, two maps) are taken for equal whatever their element types. An
/// empty list is never equal to an empty set, nor a filled collection to
/// one of another type. Where that exception is not wanted, use
/// [`Object::same`], which refuses to compare values of different types.
pub fn sloppy_compare_hyper(a: &Object, b: &Object) -> (r: bool)
    ensures
        r == objects_loosely_equal(a@, b@),
{
    let ghost x = a@;
    let ghost y = b@;
    let ghost ks = a.name_seq();
    let ghost ms = b.name_seq();
    let n = a.len();
    let m = b.len();
    let mut i: usize = 0;
    while i < n
        invariant
            i <= n,
            n == a.name_seq().len(),
            x == a@,
            y == b@,
            ks == a.name_seq(),
            forall|k: int| 0 <= k < i ==> attr_loosely_agrees(x, y, #[trigger] ks[k]),
        decreases n - i,
    {
        let name = a.name(i);
        let value = a.value(i);
        let agrees = match b.get(name) {
            Some(other) => value.loosely_same(other),
            None => {
                let zero = Value::zero(value.value_type());
                value.loosely_same(&zero)
            },
        };
        assert(agrees == attr_loosely_agrees(x, y, ks[i as int]));
        if !agrees {
            return false;
        }
        i += 1;
    }
    let mut j: usize = 0;
    while j < m
        invariant
            j <= m,
            m == b.name_seq().len(),
            n == a.name_seq().len(),
            x == a@,
            y == b@,
            ks == a.name_seq(),
            ms == b.name_seq(),
            forall|k: int| 0 <= k < n ==> attr_loosely_agrees(x, y, #[trigger] ks[k]),
            forall|k: int| 0 <= k < j ==> attr_loosely_agrees(x, y, #[trigger] ms[k]),
        decreases m - j,
    {
        let name = b.name(j);
        let value = b.value(j);
        if !a.has(name) {
            let zero = Value::zero(value.value_type());
            let agrees = zero.loosely_same(value);
            assert(agrees == attr_loosely_agrees(x, y, ms[j as int]));
            if !agrees {
                return false;
            }
        } else {
            proof {
                lemma_pairing_dom(ks, a.value_seq());
                let k = choose|k: int| 0 <= k < ks.len() && ks[k] == ms[j as int];
                assert(attr_loosely_agrees(x, y, ks[k]));
            }
        }
        j += 1;
    }
    proof {
        lemma_pairing_dom(ks, a.value_seq());
        lemma_pairing_dom(ms, b.value_seq());
        assert forall|name: Seq<char>|
            x.dom().contains(name) || y.dom().contains(name) implies attr_loosely_agrees(
            x,
            y,
            name,
        ) by {
            if x.dom().contains(name) {
                let k = choose|k: int| 0 <= k < ks.len() && ks[k] == name;
                assert(attr_loosely_agrees(x, y, ks[k]));
            } else {
                let k = choose|k: int| 0 <= k < ms.len() && ms[k] == name;
                assert(attr_loosely_agrees(x, y, ms[k]));
            }
        }
    }
    true
}

} // verus!
