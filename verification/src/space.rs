//! A space held in memory: the meaning of every client operation.

use vstd::prelude::*;
use crate::assoc::{
    lemma_pairing_at, lemma_pairing_dom, lemma_pairing_empty, lemma_pairing_push,
    lemma_pairing_remove, lemma_pairing_update, pairing,
};
use crate::error::Error;
use crate::object::{name_views, Attrs, Object};
use crate::predicate::{evaluate, Predicate, PredicateModel};
use crate::schema::{admits, is_record, zero_record, Schema, Types};
use crate::stream::{SearchStream, StreamModel};
use crate::value::{Value, ValueModel, ValueType};

verus! {

/// What a space holds: key to record.
pub type Contents = Map<ValueModel, Attrs>;

/// The contents of a sequence of predicates.
pub open spec fn predicate_views(s: Seq<Predicate>) -> Seq<PredicateModel> {
    Seq::new(s.len(), |i: int| s[i]@)
}

/// The attributes of a sequence of objects.
pub open spec fn object_views(s: Seq<Object>) -> Seq<Attrs> {
    Seq::new(s.len(), |i: int| s[i]@)
}

/// The record that operations on `key` start from: the stored one, or the
/// zero record where the key is absent.
pub open spec fn current(types: Types, contents: Contents, key: ValueModel) -> Attrs {
    if contents.dom().contains(key) {
        contents[key]
    } else {
        zero_record(types)
    }
}

/// The contents after a write to `key`: the attributes of the update
/// replace those of the current record, the others stay.
pub open spec fn written(types: Types, contents: Contents, key: ValueModel, update: Attrs) -> Contents {
    contents.insert(key, current(types, contents, key).union_prefer_right(update))
}

/// A record together with its key, as predicates and searches see it.
pub open spec fn full_object(key_name: Seq<char>, key: ValueModel, record: Attrs) -> Attrs {
    record.insert(key_name, key)
}

/// Whether the object has the predicate's attribute and the predicate
/// decides for its value.
pub open spec fn holds(p: PredicateModel, obj: Attrs) -> bool {
    obj.dom().contains(p.attr) && evaluate(p.op, obj[p.attr], p.operand) == Ok::<bool, Error>(true)
}

/// The conjunction of the predicates.
pub open spec fn all_hold(ps: Seq<PredicateModel>, obj: Attrs) -> bool {
    forall|i: int| 0 <= i < ps.len() ==> holds(#[trigger] ps[i], obj)
}

/// Whether the schema accepts every predicate.
pub open spec fn all_accepted(schema: Schema, ps: Seq<PredicateModel>) -> bool {
    forall|i: int| 0 <= i < ps.len() ==> schema.accepts(#[trigger] ps[i])
}

/// Whether a write of `update` to `key` fits the schema.
pub open spec fn write_allowed(schema: Schema, key: ValueModel, update: Attrs) -> bool {
    key.value_type() == schema.key_type() && admits(schema.types(), update)
}

/// Whether every key has the key's type and every record exactly the
/// declared attributes, each with a value of its type. Every space is so.
pub open spec fn conforms(schema: Schema, contents: Contents) -> bool {
    forall|k: ValueModel| #[trigger]
        contents.dom().contains(k) ==> k.value_type() == schema.key_type() && is_record(
            schema.types(),
            contents[k],
        )
}

/// What a read of `key` returns.
pub open spec fn read_outcome(key_type: ValueType, contents: Contents, key: ValueModel) -> Result<
    Attrs,
    Error,
> {
    if key.value_type() != key_type {
        Err(Error::InvalidArgument)
    } else if !contents.dom().contains(key) {
        Err(Error::NotFound)
    } else {
        Ok(contents[key])
    }
}

/// What restricting an object to `names` returns.
pub open spec fn projected(attrs: Attrs, names: Set<Seq<char>>) -> Result<Attrs, Error> {
    if names.subset_of(attrs.dom()) {
        Ok(attrs.restrict(names))
    } else {
        Err(Error::InvalidArgument)
    }
}

/// What a read of some attributes of `key` returns: the read, then the
/// restriction.
pub open spec fn partial_outcome(
    key_type: ValueType,
    contents: Contents,
    key: ValueModel,
    names: Set<Seq<char>>,
) -> Result<Attrs, Error> {
    match read_outcome(key_type, contents, key) {
        Ok(attrs) => projected(attrs, names),
        Err(e) => Err(e),
    }
}

/// The records of the space that satisfy all predicates, each with its key.
pub open spec fn matching(key_name: Seq<char>, contents: Contents, ps: Seq<PredicateModel>) -> Set<
    Attrs,
> {
    Set::new(
        |o: Attrs|
            exists|k: ValueModel|
                contents.dom().contains(k) && o == full_object(key_name, k, #[trigger] contents[k])
                    && all_hold(ps, o),
    )
}

/// What a write returns and leaves behind: `InvalidArgument` and no change
/// where it does not fit the schema, and the written contents otherwise.
pub open spec fn put_outcome(schema: Schema, contents: Contents, key: ValueModel, update: Attrs) -> (
    Result<(), Error>,
    Contents,
) {
    if write_allowed(schema, key, update) {
        (Ok(()), written(schema.types(), contents, key, update))
    } else {
        (Err(Error::InvalidArgument), contents)
    }
}

/// What a removal returns and leaves behind: `InvalidArgument` and no
/// change for a key of another type than the space's, and the contents
/// without the key otherwise, whether or not the key was there.
pub open spec fn del_outcome(schema: Schema, contents: Contents, key: ValueModel) -> (
    Result<(), Error>,
    Contents,
) {
    if key.value_type() == schema.key_type() {
        (Ok(()), contents.remove(key))
    } else {
        (Err(Error::InvalidArgument), contents)
    }
}

/// What a conditional write returns and leaves behind: `InvalidArgument`
/// where the write or a predicate does not fit the schema, `ConditionFailed`
/// where the current record, with its key, does not satisfy all predicates,
/// both without a change; and the write otherwise.
pub open spec fn cond_put_outcome(
    schema: Schema,
    contents: Contents,
    key: ValueModel,
    ps: Seq<PredicateModel>,
    update: Attrs,
) -> (Result<(), Error>, Contents) {
    if !write_allowed(schema, key, update) || !all_accepted(schema, ps) {
        (Err(Error::InvalidArgument), contents)
    } else if !all_hold(
        ps,
        full_object(schema.key_name(), key, current(schema.types(), contents, key)),
    ) {
        (Err(Error::ConditionFailed), contents)
    } else {
        (Ok(()), written(schema.types(), contents, key, update))
    }
}

/// Whether the stream holds what a search returns: each matching record
/// once, or `InvalidArgument` and no record where the schema does not accept
/// a predicate.
pub open spec fn is_search_result(
    schema: Schema,
    contents: Contents,
    ps: Seq<PredicateModel>,
    stream: StreamModel,
) -> bool {
    if all_accepted(schema, ps) {
        &&& stream.fault is None
        &&& stream.buffered.no_duplicates()
        &&& stream.buffered.to_set() == matching(schema.key_name(), contents, ps)
    } else {
        &&& stream.fault == Some(Error::InvalidArgument)
        &&& stream.buffered.len() == 0
    }
}

/// The attributes of an operation's result.
pub open spec fn outcome_view(r: Result<Object, Error>) -> Result<Attrs, Error> {
    match r {
        Ok(o) => Ok(o@),
        Err(e) => Err(e),
    }
}

/// Whether the object satisfies all predicates. A predicate whose attribute
/// the object lacks, or that does not apply to the attribute's value, is
/// not satisfied.
pub fn satisfies(preds: &Vec<Predicate>, obj: &Object) -> (r: bool)
    ensures
        r == all_hold(predicate_views(preds@), obj@),
{
    let ghost ps = predicate_views(preds@);
    let mut i: usize = 0;
    while i < preds.len()
        invariant
            i <= preds.len(),
            ps == predicate_views(preds@),
            forall|k: int| 0 <= k < i ==> holds(#[trigger] ps[k], obj@),
        decreases preds.len() - i,
    {
        let p = &preds[i];
        let passed = match obj.get(&p.attr) {
            Some(value) => {
                match p.test(value) {
                    Ok(verdict) => verdict,
                    Err(_) => false,
                }
            },
            None => false,
        };
        if !passed {
            proof {
                assert(!holds(ps[i as int], obj@));
            }
            return false;
        }
        i += 1;
    }
    true
}

/// Whether the schema accepts every predicate.
pub fn accepts_all(schema: &Schema, preds: &Vec<Predicate>) -> (r: bool)
    ensures
        r == all_accepted(*schema, predicate_views(preds@)),
{
    let ghost ps = predicate_views(preds@);
    let mut i: usize = 0;
    while i < preds.len()
        invariant
            i <= preds.len(),
            ps == predicate_views(preds@),
            forall|k: int| 0 <= k < i ==> schema.accepts(#[trigger] ps[k]),
        decreases preds.len() - i,
    {
        if !schema.accepts_predicate(&preds[i]) {
            proof {
                assert(!schema.accepts(ps[i as int]));
            }
            return false;
        }
        i += 1;
    }
    true
}

/// A record together with its key.
pub fn with_key(schema: &Schema, key: &Value, record: &Object) -> (r: Object)
    ensures
        r@ == full_object(schema.key_name(), key@, record@),
{
    let mut out = record.dup();
    out.set(schema.key().clone(), key.dup());
    out
}

struct Row {
    key: Value,
    attrs: Object,
}

spec fn row_keys(rows: Seq<Row>) -> Seq<ValueModel> {
    Seq::new(rows.len(), |i: int| rows[i].key@)
}

spec fn row_records(rows: Seq<Row>) -> Seq<Attrs> {
    Seq::new(rows.len(), |i: int| rows[i].attrs@)
}

spec fn rows_fit(schema: Schema, rows: Seq<Row>) -> bool {
    &&& row_keys(rows).no_duplicates()
    &&& forall|i: int|
        0 <= i < rows.len() ==> (#[trigger] rows[i]).key@.value_type() == schema.key_type()
    &&& forall|i: int| 0 <= i < rows.len() ==> is_record(schema.types(), (#[trigger] rows[i]).attrs@)
}

/// A named collection of records that share one schema.
pub struct Space {
    schema: Schema,
    rows: Vec<Row>,
}

impl View for Space {
    type V = Contents;

    closed spec fn view(&self) -> Contents {
        pairing(row_keys(self.rows@), row_records(self.rows@))
    }
}

impl Space {
    #[verifier::type_invariant]
    spec fn well_formed(self) -> bool {
        rows_fit(self.schema, self.rows@)
    }

    /// The schema, which never changes.
    pub closed spec fn schema(self) -> Schema {
        self.schema
    }

    /// The attributes that every record has.
    pub open spec fn types(self) -> Types {
        self.schema().types()
    }

    /// The space without records.
    pub fn new(schema: Schema) -> (r: Space)
        ensures
            r.schema() == schema,
            r@ == Map::<ValueModel, Attrs>::empty(),
    {
        let r = Space { schema, rows: Vec::new() };
        proof {
            assert(row_keys(r.rows@) =~= Seq::<ValueModel>::empty());
            assert(row_records(r.rows@) =~= Seq::<Attrs>::empty());
            lemma_pairing_empty::<ValueModel, Attrs>();
        }
        r
    }

    /// The schema.
    pub fn schema_ref(&self) -> (r: &Schema)
        ensures
            *r == self.schema(),
    {
        &self.schema
    }

    /// The number of records.
    pub fn len(&self) -> (r: usize)
        ensures
            r == self@.dom().len(),
            conforms(self.schema(), self@),
    {
        proof {
            use_type_invariant(self);
            let ks = row_keys(self.rows@);
            let rs = row_records(self.rows@);
            ks.unique_seq_to_set();
            lemma_pairing_dom(ks, rs);
            assert forall|k: ValueModel| #[trigger] self@.dom().contains(k) implies k.value_type()
                == self.schema().key_type() && is_record(self.schema().types(), self@[k]) by {
                let i = choose|i: int| 0 <= i < ks.len() && ks[i] == k;
                lemma_pairing_at(ks, rs, i);
                assert(self.rows@[i].key@ == k);
                assert(self.rows@[i].attrs@ == self@[k]);
            }
        }
        self.rows.len()
    }

    fn find(&self, key: &Value) -> (r: Option<usize>)
        requires
            key@.value_type() == self.schema().key_type(),
        ensures
            r matches Some(i) ==> i < self.rows.len() && row_keys(self.rows@)[i as int] == key@,
            r.is_some() == self@.dom().contains(key@),
    {
        proof {
            use_type_invariant(self);
            lemma_pairing_dom(row_keys(self.rows@), row_records(self.rows@));
        }
        let mut i: usize = 0;
        while i < self.rows.len()
            invariant
                i <= self.rows.len(),
                rows_fit(self.schema, self.rows@),
                key@.value_type() == self.schema.key_type(),
                forall|k: int| 0 <= k < i ==> row_keys(self.rows@)[k] != key@,
            decreases self.rows.len() - i,
        {
            let hit = match self.rows[i].key.same(key) {
                Ok(e) => e,
                Err(_) => false,
            };
            if hit {
                proof {
                    assert(row_keys(self.rows@)[i as int] == key@);
                    assert(row_keys(self.rows@).contains(key@));
                }
                return Some(i);
            }
            i += 1;
        }
        None
    }

    /// The record of `key`.
    pub fn get(&self, key: &Value) -> (r: Result<Object, Error>)
        ensures
            outcome_view(r) == read_outcome(self.schema().key_type(), self@, key@),
            r matches Ok(o) ==> is_record(self.types(), o@),
    {
        proof {
            use_type_invariant(self);
        }
        if !self.schema.admits_key(key) {
            return Err(Error::InvalidArgument);
        }
        match self.find(key) {
            Some(i) => {
                proof {
                    lemma_pairing_at(row_keys(self.rows@), row_records(self.rows@), i as int);
                }
                Ok(self.rows[i].attrs.dup())
            },
            None => Err(Error::NotFound),
        }
    }

    /// The attributes `names` of the record of `key`: `get`, then `project`.
    pub fn get_partial(&self, key: &Value, names: &Vec<String>) -> (r: Result<Object, Error>)
        ensures
            outcome_view(r) == partial_outcome(
                self.schema().key_type(),
                self@,
                key@,
                name_views(names@).to_set(),
            ),
    {
        match self.get(key) {
            Ok(record) => record.project(names),
            Err(e) => Err(e),
        }
    }

    /// The record that operations on `key` start from.
    fn current_of(&self, key: &Value) -> (r: Object)
        requires
            key@.value_type() == self.schema().key_type(),
        ensures
            r@ == current(self.types(), self@, key@),
            is_record(self.types(), r@),
    {
        proof {
            use_type_invariant(self);
        }
        match self.find(key) {
            Some(i) => {
                proof {
                    lemma_pairing_at(row_keys(self.rows@), row_records(self.rows@), i as int);
                }
                self.rows[i].attrs.dup()
            },
            None => self.schema.zero_object(),
        }
    }

    /// Stores `record` under `key`, in place of what was there.
    fn store(&mut self, key: &Value, record: Object)
        requires
            key@.value_type() == old(self).schema().key_type(),
            is_record(old(self).types(), record@),
        ensures
            final(self).schema() == old(self).schema(),
            final(self)@ == old(self)@.insert(key@, record@),
    {
        proof {
            use_type_invariant(&*self);
        }
        let found = self.find(key);
        let ghost ks = row_keys(self.rows@);
        let ghost rs = row_records(self.rows@);
        let ghost rec = record@;
        let mut rows: Vec<Row> = Vec::new();
        std::mem::swap(&mut rows, &mut self.rows);
        match found {
            Some(i) => {
                rows.set(i, Row { key: key.dup(), attrs: record });
                proof {
                    lemma_pairing_update(ks, rs, i as int, rec);
                    assert(row_keys(rows@) =~= ks);
                    assert(row_records(rows@) =~= rs.update(i as int, rec));
                }
            },
            None => {
                rows.push(Row { key: key.dup(), attrs: record });
                proof {
                    lemma_pairing_dom(ks, rs);
                    lemma_pairing_push(ks, rs, key@, rec);
                    assert(row_keys(rows@) =~= ks.push(key@));
                    assert(row_records(rows@) =~= rs.push(rec));
                }
            },
        }
        self.rows = rows;
    }

    /// Writes the attributes of `attrs` to the record of `key`, which is
    /// created from zero values if absent. Attributes that `attrs` does not
    /// name stay as they are.
    pub fn put(&mut self, key: &Value, attrs: &Object) -> (r: Result<(), Error>)
        ensures
            final(self).schema() == old(self).schema(),
            (r, final(self)@) == put_outcome(old(self).schema(), old(self)@, key@, attrs@),
    {
        if !self.schema.admits_key(key) || !self.schema.admits_object(attrs) {
            return Err(Error::InvalidArgument);
        }
        let record = self.current_of(key).merged(attrs);
        proof {
            assert(record@.dom() =~= self.types().dom());
        }
        self.store(key, record);
        Ok(())
    }

    /// Removes the record of `key`, if there is one.
    pub fn del(&mut self, key: &Value) -> (r: Result<(), Error>)
        ensures
            final(self).schema() == old(self).schema(),
            (r, final(self)@) == del_outcome(old(self).schema(), old(self)@, key@),
    {
        proof {
            use_type_invariant(&*self);
        }
        if !self.schema.admits_key(key) {
            return Err(Error::InvalidArgument);
        }
        match self.find(key) {
            Some(i) => {
                let ghost ks = row_keys(self.rows@);
                let ghost rs = row_records(self.rows@);
                let mut rows: Vec<Row> = Vec::new();
                std::mem::swap(&mut rows, &mut self.rows);
                let ghost before = rows@;
                rows.remove(i);
                proof {
                    lemma_pairing_remove(ks, rs, i as int);
                    assert(row_keys(rows@) =~= ks.remove(i as int));
                    assert(row_records(rows@) =~= rs.remove(i as int));
                    assert forall|k: int| 0 <= k < rows@.len() implies (#[trigger] rows@[k])
                        == before[if k < i { k } else { k + 1 }] by {}
                }
                self.rows = rows;
            },
            None => {
                proof {
                    assert(self@.remove(key@) =~= self@);
                }
            },
        }
        Ok(())
    }

    /// Writes as `put` does, but only if the record of `key`, with its key,
    /// satisfies all predicates; an absent record is looked at as the zero
    /// record. Otherwise nothing is written and the result is
    /// `ConditionFailed`.
    pub fn cond_put(&mut self, key: &Value, preds: &Vec<Predicate>, attrs: &Object) -> (r: Result<
        (),
        Error,
    >)
        ensures
            final(self).schema() == old(self).schema(),
            cond_put_outcome(old(self).schema(), old(self)@, key@, predicate_views(preds@), attrs@)
                == (r, final(self)@),
    {
        if !self.schema.admits_key(key) || !self.schema.admits_object(attrs) || !accepts_all(
            &self.schema,
            preds,
        ) {
            return Err(Error::InvalidArgument);
        }
        let before = self.current_of(key);
        let seen = with_key(&self.schema, key, &before);
        if !satisfies(preds, &seen) {
            return Err(Error::ConditionFailed);
        }
        let record = before.merged(attrs);
        proof {
            assert(record@.dom() =~= self.types().dom());
        }
        self.store(key, record);
        Ok(())
    }

    /// The records that satisfy all predicates, each with its key and each
    /// once, in no particular order. A predicate that the schema does not
    /// accept is an `InvalidArgument`.
    pub fn select(&self, preds: &Vec<Predicate>) -> (r: Result<Vec<Object>, Error>)
        ensures
            !all_accepted(self.schema(), predicate_views(preds@)) ==> r is Err && r->Err_0
                == Error::InvalidArgument,
            all_accepted(self.schema(), predicate_views(preds@)) ==> r is Ok && object_views(
                r->Ok_0@,
            ).no_duplicates() && object_views(r->Ok_0@).to_set() == matching(
                self.schema().key_name(),
                self@,
                predicate_views(preds@),
            ),
    {
        proof {
            use_type_invariant(self);
        }
        if !accepts_all(&self.schema, preds) {
            return Err(Error::InvalidArgument);
        }
        let ghost ps = predicate_views(preds@);
        let ghost ks = row_keys(self.rows@);
        let ghost rs = row_records(self.rows@);
        let ghost name = self.schema.key_name();
        let ghost mut src: Seq<int> = Seq::empty();
        let mut out: Vec<Object> = Vec::new();
        let mut i: usize = 0;
        while i < self.rows.len()
            invariant
                i <= self.rows.len(),
                ps == predicate_views(preds@),
                ks == row_keys(self.rows@),
                rs == row_records(self.rows@),
                name == self.schema.key_name(),
                src.len() == out.len(),
                forall|j: int| 0 <= j < src.len() ==> 0 <= #[trigger] src[j] < i,
                forall|j: int, l: int| 0 <= j < l < src.len() ==> src[j] < src[l],
                forall|j: int|
                    0 <= j < src.len() ==> (#[trigger] out@[j])@ == full_object(
                        name,
                        ks[src[j]],
                        rs[src[j]],
                    ) && all_hold(ps, out@[j]@),
                forall|k: int|
                    0 <= k < i && all_hold(ps, full_object(name, #[trigger] ks[k], rs[k]))
                        ==> src.contains(k),
            decreases self.rows.len() - i,
        {
            let seen = with_key(&self.schema, &self.rows[i].key, &self.rows[i].attrs);
            if satisfies(preds, &seen) {
                proof {
                    let ghost before = src;
                    src = src.push(i as int);
                    assert forall|k: int|
                        0 <= k < i + 1 && all_hold(
                            ps,
                            full_object(name, #[trigger] ks[k], rs[k]),
                        ) implies src.contains(k) by {
                        if k < i {
                            assert(before.contains(k));
                            let j = choose|j: int| 0 <= j < before.len() && before[j] == k;
                            assert(src[j] == k);
                        } else {
                            assert(src[before.len() as int] == k);
                        }
                    }
                }
                out.push(seen);
            }
            i += 1;
        }
        proof {
            let vs = object_views(out@);
            lemma_pairing_dom(ks, rs);
            assert forall|a: int, b: int| 0 <= a < vs.len() && 0 <= b < vs.len() && a != b implies vs[a]
                != vs[b] by {
                assert(out@[a]@ == full_object(name, ks[src[a]], rs[src[a]]));
                assert(out@[b]@ == full_object(name, ks[src[b]], rs[src[b]]));
                assert(vs[a][name] == ks[src[a]]);
                assert(vs[b][name] == ks[src[b]]);
                if a < b {
                    assert(src[a] < src[b]);
                } else {
                    assert(src[b] < src[a]);
                }
            }
            let want = matching(name, self@, ps);
            assert forall|o: Attrs| vs.to_set().contains(o) <==> want.contains(o) by {
                if vs.contains(o) {
                    let j = choose|j: int| 0 <= j < vs.len() && vs[j] == o;
                    assert(out@[j]@ == full_object(name, ks[src[j]], rs[src[j]]));
                    lemma_pairing_at(ks, rs, src[j]);
                    assert(self@.dom().contains(ks[src[j]]));
                    assert(o == full_object(name, ks[src[j]], self@[ks[src[j]]]));
                }
                if want.contains(o) {
                    let key = choose|k: ValueModel|
                        self@.dom().contains(k) && o == full_object(name, k, #[trigger] self@[k])
                            && all_hold(ps, o);
                    assert(ks.contains(key));
                    let k = choose|k: int| 0 <= k < ks.len() && ks[k] == key;
                    lemma_pairing_at(ks, rs, k);
                    assert(src.contains(k));
                    let j = choose|j: int| 0 <= j < src.len() && src[j] == k;
                    assert(vs[j] == o);
                }
            }
            assert(vs.to_set() =~= want);
        }
        Ok(out)
    }

    /// The stream of the records that satisfy all predicates. The space
    /// answers at once, so no partition is waited for. A predicate that the
    /// schema does not accept makes the stream fail with `InvalidArgument`.
    pub fn search(&self, preds: &Vec<Predicate>) -> (r: SearchStream)
        ensures
            r@.open == 0,
            is_search_result(self.schema(), self@, predicate_views(preds@), r@),
    {
        SearchStream::finished(self.select(preds))
    }
}

} // verus!
