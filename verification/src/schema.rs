//! Schemas: the key and the declared attributes of a space.

use vstd::prelude::*;
use crate::assoc::{
    lemma_pairing_at, lemma_pairing_dom, lemma_pairing_empty, lemma_pairing_push,
    lemma_take_distinct, pairing,
};
use crate::error::Error;
use crate::object::{name_views, Attrs, Object};
use crate::predicate::{fits, Predicate, PredicateModel};
use crate::scalar::ScalarType;
use crate::value::{zero_model, Value, ValueType};

verus! {

/// The declared attributes of a space: name to type.
pub type Types = Map<Seq<char>, ValueType>;

/// Whether every attribute of the object is declared, with the type of its
/// value.
pub open spec fn admits(types: Types, attrs: Attrs) -> bool {
    forall|n: Seq<char>| #[trigger]
        attrs.dom().contains(n) ==> types.dom().contains(n) && attrs[n].value_type() == types[n]
}

/// Whether the object has exactly the declared attributes, each with a
/// value of its type.
pub open spec fn is_record(types: Types, attrs: Attrs) -> bool {
    attrs.dom() == types.dom() && admits(types, attrs)
}

/// The record that a space holds for a key that was written without any
/// attribute: every declared attribute with the zero value of its type.
pub open spec fn zero_record(types: Types) -> Attrs {
    Map::new(|n: Seq<char>| types.dom().contains(n), |n: Seq<char>| zero_model(types[n]))
}

/// The key's name, the key's type and the declared attributes of a space.
#[derive(Debug)]
pub struct Schema {
    key_name: String,
    key_type: ScalarType,
    names: Vec<String>,
    types: Vec<ValueType>,
}

impl Schema {
    #[verifier::type_invariant]
    spec fn well_formed(self) -> bool {
        &&& self.names.len() == self.types.len()
        &&& name_views(self.names@).no_duplicates()
        &&& !name_views(self.names@).contains(self.key_name@)
    }

    /// The name of the key attribute.
    pub closed spec fn key_name(self) -> Seq<char> {
        self.key_name@
    }

    /// The type of the key, a scalar type.
    pub closed spec fn key_type(self) -> ValueType {
        ValueType::Scalar(self.key_type)
    }

    /// The declared names, in the order of their declaration.
    pub closed spec fn name_seq(self) -> Seq<Seq<char>> {
        name_views(self.names@)
    }

    /// The declared types, each at the position of its name.
    pub closed spec fn type_seq(self) -> Seq<ValueType> {
        self.types@
    }

    /// The declared attributes, without the key.
    pub open spec fn types(self) -> Types {
        pairing(self.name_seq(), self.type_seq())
    }

    /// The type of an attribute by name: the key's for the key's name, the
    /// declared type for a declared attribute.
    pub open spec fn type_of(self, name: Seq<char>) -> Option<ValueType> {
        if name == self.key_name() {
            Some(self.key_type())
        } else if self.types().dom().contains(name) {
            Some(self.types()[name])
        } else {
            None
        }
    }

    /// Whether the predicate names the key or a declared attribute and fits
    /// its type.
    pub open spec fn accepts(self, p: PredicateModel) -> bool {
        self.type_of(p.attr) matches Some(t) && fits(p.op, t, p.operand)
    }

    /// The schema of a space with a key and no other attribute.
    pub fn new(key_name: String, key_type: ScalarType) -> (r: Schema)
        ensures
            r.key_name() == key_name@,
            r.key_type() == ValueType::Scalar(key_type),
            r.types() == Map::<Seq<char>, ValueType>::empty(),
    {
        let r = Schema { key_name, key_type, names: Vec::new(), types: Vec::new() };
        proof {
            assert(r.name_seq() =~= Seq::<Seq<char>>::empty());
            assert(r.type_seq() =~= Seq::<ValueType>::empty());
            lemma_pairing_empty::<Seq<char>, ValueType>();
        }
        r
    }

    /// The schema with one more attribute. The key's name, or a name
    /// declared before, is an `InvalidArgument`.
    pub fn declare(self, name: String, t: ValueType) -> (r: Result<Schema, Error>)
        ensures
            self.type_of(name@).is_some() ==> r == Err::<Schema, Error>(Error::InvalidArgument),
            self.type_of(name@).is_none() ==> r.is_ok() && r.unwrap().types() == self.types().insert(
                name@,
                t,
            ) && r.unwrap().key_name() == self.key_name() && r.unwrap().key_type()
                == self.key_type(),
    {
        proof {
            use_type_invariant(&self);
        }
        if self.type_of_name(&name).is_some() {
            return Err(Error::InvalidArgument);
        }
        let ghost ks = self.name_seq();
        let ghost ts = self.type_seq();
        let ghost n = name@;
        let Schema { key_name, key_type, mut names, mut types } = self;
        proof {
            lemma_pairing_dom(ks, ts);
            lemma_pairing_push(ks, ts, n, t);
        }
        names.push(name);
        types.push(t);
        proof {
            assert(name_views(names@) =~= ks.push(n));
            assert(types@ =~= ts.push(t));
            if name_views(names@).contains(key_name@) {
                let i = choose|i: int|
                    0 <= i < name_views(names@).len() && name_views(names@)[i] == key_name@;
                if i < ks.len() {
                    assert(ks[i] == key_name@);
                    assert(ks.contains(key_name@));
                }
            }
        }
        Ok(Schema { key_name, key_type, names, types })
    }

    /// The name of the key attribute.
    pub fn key(&self) -> (r: &String)
        ensures
            r@ == self.key_name(),
    {
        &self.key_name
    }

    /// The number of declared attributes.
    pub fn len(&self) -> (r: usize)
        ensures
            r == self.name_seq().len(),
            r == self.type_seq().len(),
            self.name_seq().no_duplicates(),
            !self.types().dom().contains(self.key_name()),
    {
        proof {
            use_type_invariant(self);
            lemma_pairing_dom(self.name_seq(), self.type_seq());
        }
        self.names.len()
    }

    /// The declared name at position `i`.
    pub fn name(&self, i: usize) -> (r: &String)
        requires
            i < self.name_seq().len(),
        ensures
            r@ == self.name_seq()[i as int],
            self.types().dom().contains(r@),
    {
        proof {
            use_type_invariant(self);
            lemma_pairing_at(self.name_seq(), self.type_seq(), i as int);
        }
        &self.names[i]
    }

    /// The declared type at position `i`.
    pub fn declared_type(&self, i: usize) -> (r: ValueType)
        requires
            i < self.name_seq().len(),
        ensures
            r == self.type_seq()[i as int],
            r == self.types()[self.name_seq()[i as int]],
    {
        proof {
            use_type_invariant(self);
            lemma_pairing_at(self.name_seq(), self.type_seq(), i as int);
        }
        self.types[i]
    }

    /// The type of an attribute by name, the key included.
    pub fn type_of_name(&self, name: &String) -> (r: Option<ValueType>)
        ensures
            r == self.type_of(name@),
    {
        proof {
            use_type_invariant(self);
            lemma_pairing_dom(self.name_seq(), self.type_seq());
        }
        if *name == self.key_name {
            return Some(ValueType::Scalar(self.key_type));
        }
        let mut i: usize = 0;
        while i < self.names.len()
            invariant
                i <= self.names.len(),
                self.names.len() == self.types.len(),
                self.name_seq().no_duplicates(),
                name@ != self.key_name(),
                forall|k: int| 0 <= k < i ==> self.name_seq()[k] != name@,
            decreases self.names.len() - i,
        {
            if self.names[i] == *name {
                proof {
                    assert(self.name_seq()[i as int] == name@);
                    lemma_pairing_at(self.name_seq(), self.type_seq(), i as int);
                }
                return Some(self.types[i]);
            }
            i += 1;
        }
        None
    }

    /// Whether the value can be a key of the space.
    pub fn admits_key(&self, key: &Value) -> (r: bool)
        ensures
            r == (key@.value_type() == self.key_type()),
    {
        key.value_type() == ValueType::Scalar(self.key_type)
    }

    /// Whether every attribute of the object is declared, with the type of
    /// its value. The key's name is no declared attribute.
    pub fn admits_object(&self, obj: &Object) -> (r: bool)
        ensures
            r == admits(self.types(), obj@),
    {
        let n = obj.len();
        let mut i: usize = 0;
        while i < n
            invariant
                i <= n,
                n == obj.name_seq().len(),
                forall|k: int|
                    0 <= k < i ==> self.types().dom().contains(#[trigger] obj.name_seq()[k])
                        && obj@[obj.name_seq()[k]].value_type() == self.types()[obj.name_seq()[k]],
            decreases n - i,
        {
            let name = obj.name(i);
            let value = obj.value(i);
            proof {
                use_type_invariant(self);
                lemma_pairing_dom(self.name_seq(), self.type_seq());
            }
            if *name == self.key_name {
                return false;
            }
            match self.type_of_name(name) {
                Some(t) => {
                    if value.value_type() != t {
                        return false;
                    }
                },
                None => {
                    return false;
                },
            }
            i += 1;
        }
        proof {
            lemma_pairing_dom(obj.name_seq(), obj.value_seq());
            assert forall|m: Seq<char>| #[trigger] obj@.dom().contains(m) implies self.types().dom().contains(m)
                && obj@[m].value_type() == self.types()[m] by {
                let k = choose|k: int| 0 <= k < obj.name_seq().len() && obj.name_seq()[k] == m;
                assert(self.types().dom().contains(obj.name_seq()[k]));
            }
        }
        true
    }

    /// The record of a key that was written without any attribute.
    pub fn zero_object(&self) -> (r: Object)
        ensures
            r@ == zero_record(self.types()),
            is_record(self.types(), r@),
    {
        let n = self.len();
        let ghost ks = self.name_seq();
        let ghost ts = self.type_seq();
        let mut out = Object::new();
        let mut i: usize = 0;
        proof {
            assert(ks.take(0) =~= Seq::<Seq<char>>::empty());
            assert(ts.take(0) =~= Seq::<ValueType>::empty());
            lemma_pairing_empty::<Seq<char>, ValueType>();
            assert(out@ =~= zero_record(pairing(ks.take(0), ts.take(0))));
        }
        while i < n
            invariant
                i <= n,
                n == self.name_seq().len(),
                n == self.type_seq().len(),
                ks == self.name_seq(),
                ts == self.type_seq(),
                ks.no_duplicates(),
                out@ == zero_record(pairing(ks.take(i as int), ts.take(i as int))),
            decreases n - i,
        {
            let name = self.name(i).clone();
            let zero = Value::zero(self.declared_type(i));
            out.set(name, zero);
            proof {
                let ki = ks.take(i as int);
                let ti = ts.take(i as int);
                lemma_take_distinct(ks, i as int);
                lemma_pairing_push(ki, ti, ks[i as int], ts[i as int]);
                assert(ks.take(i + 1) =~= ki.push(ks[i as int]));
                assert(ts.take(i + 1) =~= ti.push(ts[i as int]));
                assert(out@ =~= zero_record(pairing(ks.take(i + 1), ts.take(i + 1))));
            }
            i += 1;
        }
        proof {
            assert(ks.take(n as int) =~= ks);
            assert(ts.take(n as int) =~= ts);
            assert(out@.dom() =~= self.types().dom());
        }
        out
    }

    /// Whether the predicate names the key or a declared attribute and fits
    /// its type.
    pub fn accepts_predicate(&self, p: &Predicate) -> (r: bool)
        ensures
            r == self.accepts(p@),
    {
        match self.type_of_name(&p.attr) {
            Some(t) => p.fits_type(t),
            None => false,
        }
    }
}

} // verus!
