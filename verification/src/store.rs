//! A store: spaces by name, and the client operations on them.

use vstd::prelude::*;
use crate::assoc::{
    lemma_pairing_at, lemma_pairing_dom, lemma_pairing_empty, lemma_pairing_push,
    lemma_pairing_update, pairing,
};
use crate::error::Error;
use crate::object::{name_views, Attrs, Object};
use crate::predicate::{Predicate, PredicateModel};
use crate::schema::Schema;
use crate::space::{
    cond_put_outcome, del_outcome, is_search_result, outcome_view, partial_outcome,
    predicate_views, put_outcome, read_outcome, Contents, Space,
};
use crate::stream::{SearchStream, StreamModel};
use crate::value::{Value, ValueModel};

verus! {

/// The schema and the contents of one space.
pub struct SpaceModel {
    pub schema: Schema,
    pub contents: Contents,
}

/// What a store holds: space by name.
pub type Spaces = Map<Seq<char>, SpaceModel>;

/// The store with the contents of one space replaced.
pub open spec fn with_contents(spaces: Spaces, space: Seq<char>, contents: Contents) -> Spaces {
    spaces.insert(space, SpaceModel { schema: spaces[space].schema, contents })
}

/// What `get` returns: `InvalidArgument` for a space that is not there,
/// else what the space returns.
pub open spec fn store_get(spaces: Spaces, space: Seq<char>, key: ValueModel) -> Result<
    Attrs,
    Error,
> {
    if spaces.dom().contains(space) {
        read_outcome(spaces[space].schema.key_type(), spaces[space].contents, key)
    } else {
        Err(Error::InvalidArgument)
    }
}

/// What `get_partial` returns.
pub open spec fn store_get_partial(
    spaces: Spaces,
    space: Seq<char>,
    key: ValueModel,
    names: Set<Seq<char>>,
) -> Result<Attrs, Error> {
    if spaces.dom().contains(space) {
        partial_outcome(spaces[space].schema.key_type(), spaces[space].contents, key, names)
    } else {
        Err(Error::InvalidArgument)
    }
}

/// What `put` returns and leaves behind.
pub open spec fn store_put(spaces: Spaces, space: Seq<char>, key: ValueModel, update: Attrs) -> (
    Result<(), Error>,
    Spaces,
) {
    if spaces.dom().contains(space) {
        let (r, contents) = put_outcome(
            spaces[space].schema,
            spaces[space].contents,
            key,
            update,
        );
        (r, with_contents(spaces, space, contents))
    } else {
        (Err(Error::InvalidArgument), spaces)
    }
}

/// What `del` returns and leaves behind.
pub open spec fn store_del(spaces: Spaces, space: Seq<char>, key: ValueModel) -> (
    Result<(), Error>,
    Spaces,
) {
    if spaces.dom().contains(space) {
        let (r, contents) = del_outcome(spaces[space].schema, spaces[space].contents, key);
        (r, with_contents(spaces, space, contents))
    } else {
        (Err(Error::InvalidArgument), spaces)
    }
}

/// What `cond_put` returns and leaves behind.
pub open spec fn store_cond_put(
    spaces: Spaces,
    space: Seq<char>,
    key: ValueModel,
    ps: Seq<PredicateModel>,
    update: Attrs,
) -> (Result<(), Error>, Spaces) {
    if spaces.dom().contains(space) {
        let (r, contents) = cond_put_outcome(
            spaces[space].schema,
            spaces[space].contents,
            key,
            ps,
            update,
        );
        (r, with_contents(spaces, space, contents))
    } else {
        (Err(Error::InvalidArgument), spaces)
    }
}

/// Whether the stream holds what `search` returns.
pub open spec fn is_store_search_result(
    spaces: Spaces,
    space: Seq<char>,
    ps: Seq<PredicateModel>,
    stream: StreamModel,
) -> bool {
    if spaces.dom().contains(space) {
        is_search_result(spaces[space].schema, spaces[space].contents, ps, stream)
    } else {
        stream.fault == Some(Error::InvalidArgument) && stream.buffered.len() == 0
    }
}

struct Entry {
    name: String,
    space: Space,
}

spec fn entry_names(entries: Seq<Entry>) -> Seq<Seq<char>> {
    Seq::new(entries.len(), |i: int| entries[i].name@)
}

spec fn entry_models(entries: Seq<Entry>) -> Seq<SpaceModel> {
    Seq::new(
        entries.len(),
        |i: int| SpaceModel { schema: entries[i].space.schema(), contents: entries[i].space@ },
    )
}

/// Spaces by name.
pub struct Store {
    entries: Vec<Entry>,
}

impl View for Store {
    type V = Spaces;

    closed spec fn view(&self) -> Spaces {
        pairing(entry_names(self.entries@), entry_models(self.entries@))
    }
}

impl Store {
    #[verifier::type_invariant]
    spec fn well_formed(self) -> bool {
        entry_names(self.entries@).no_duplicates()
    }

    /// The store without spaces.
    pub fn new() -> (r: Store)
        ensures
            r@ == Map::<Seq<char>, SpaceModel>::empty(),
    {
        let r = Store { entries: Vec::new() };
        proof {
            assert(entry_names(r.entries@) =~= Seq::<Seq<char>>::empty());
            assert(entry_models(r.entries@) =~= Seq::<SpaceModel>::empty());
            lemma_pairing_empty::<Seq<char>, SpaceModel>();
        }
        r
    }

    fn find(&self, space: &String) -> (r: Option<usize>)
        ensures
            r matches Some(i) ==> i < self.entries.len() && entry_names(self.entries@)[i as int]
                == space@ && self@[space@] == entry_models(self.entries@)[i as int],
            r.is_some() == self@.dom().contains(space@),
    {
        proof {
            use_type_invariant(self);
            lemma_pairing_dom(entry_names(self.entries@), entry_models(self.entries@));
        }
        let mut i: usize = 0;
        while i < self.entries.len()
            invariant
                i <= self.entries.len(),
                entry_names(self.entries@).no_duplicates(),
                forall|k: int| 0 <= k < i ==> entry_names(self.entries@)[k] != space@,
            decreases self.entries.len() - i,
        {
            if self.entries[i].name == *space {
                proof {
                    assert(entry_names(self.entries@)[i as int] == space@);
                    assert(entry_names(self.entries@).contains(space@));
                    lemma_pairing_at(
                        entry_names(self.entries@),
                        entry_models(self.entries@),
                        i as int,
                    );
                }
                return Some(i);
            }
            i += 1;
        }
        None
    }

    /// Adds an empty space. A name that is taken is an `InvalidArgument`.
    pub fn create_space(&mut self, name: String, schema: Schema) -> (r: Result<(), Error>)
        ensures
            old(self)@.dom().contains(name@) ==> r == Err::<(), Error>(Error::InvalidArgument)
                && final(self)@ == old(self)@,
            !old(self)@.dom().contains(name@) ==> r == Ok::<(), Error>(()) && final(self)@
                == old(self)@.insert(
                name@,
                SpaceModel { schema, contents: Map::<ValueModel, Attrs>::empty() },
            ),
    {
        proof {
            use_type_invariant(&*self);
            lemma_pairing_dom(entry_names(self.entries@), entry_models(self.entries@));
        }
        if self.find(&name).is_some() {
            return Err(Error::InvalidArgument);
        }
        let ghost ns = entry_names(self.entries@);
        let ghost ms = entry_models(self.entries@);
        let ghost n = name@;
        let ghost m = SpaceModel { schema, contents: Map::<ValueModel, Attrs>::empty() };
        let mut entries: Vec<Entry> = Vec::new();
        std::mem::swap(&mut entries, &mut self.entries);
        entries.push(Entry { name, space: Space::new(schema) });
        proof {
            lemma_pairing_push(ns, ms, n, m);
            assert(entry_names(entries@) =~= ns.push(n));
            assert(entry_models(entries@) =~= ms.push(m));
        }
        self.entries = entries;
        Ok(())
    }

    /// The record of `key` in `space`.
    pub fn get(&self, space: &String, key: &Value) -> (r: Result<Object, Error>)
        ensures
            outcome_view(r) == store_get(self@, space@, key@),
    {
        match self.find(space) {
            Some(i) => self.entries[i].space.get(key),
            None => Err(Error::InvalidArgument),
        }
    }

    /// The attributes `names` of the record of `key` in `space`.
    pub fn get_partial(&self, space: &String, key: &Value, names: &Vec<String>) -> (r: Result<
        Object,
        Error,
    >)
        ensures
            outcome_view(r) == store_get_partial(
                self@,
                space@,
                key@,
                name_views(names@).to_set(),
            ),
    {
        match self.find(space) {
            Some(i) => self.entries[i].space.get_partial(key, names),
            None => Err(Error::InvalidArgument),
        }
    }

    /// The stream of the records of `space` that satisfy all predicates.
    pub fn search(&self, space: &String, preds: &Vec<Predicate>) -> (r: SearchStream)
        ensures
            r@.open == 0,
            is_store_search_result(self@, space@, predicate_views(preds@), r@),
    {
        match self.find(space) {
            Some(i) => self.entries[i].space.search(preds),
            None => SearchStream::finished(Err(Error::InvalidArgument)),
        }
    }

    /// Takes the entry at `i` out, for one operation on its space.
    fn take(&mut self, i: usize) -> (r: (Vec<Entry>, Entry))
        requires
            i < old(self).entries.len(),
        ensures
            r.0@ == old(self).entries@.remove(i as int),
            r.1 == old(self).entries@[i as int],
            final(self).entries@.len() == 0,
    {
        let mut entries: Vec<Entry> = Vec::new();
        std::mem::swap(&mut entries, &mut self.entries);
        let entry = entries.remove(i);
        (entries, entry)
    }

    /// Puts an entry back where `take` took it from, with the space as the
    /// operation left it.
    fn put_back(&mut self, rest: Vec<Entry>, i: usize, entry: Entry, Ghost(before): Ghost<Seq<Entry>>)
        requires
            i < before.len(),
            entry_names(before).no_duplicates(),
            rest@ == before.remove(i as int),
            entry.name@ == before[i as int].name@,
        ensures
            final(self)@ == pairing(entry_names(before), entry_models(before)).insert(
                entry.name@,
                SpaceModel { schema: entry.space.schema(), contents: entry.space@ },
            ),
    {
        let mut entries = rest;
        let ghost m = SpaceModel { schema: entry.space.schema(), contents: entry.space@ };
        entries.insert(i, entry);
        proof {
            let ns = entry_names(before);
            let ms = entry_models(before);
            lemma_pairing_update(ns, ms, i as int, m);
            assert(entry_names(entries@) =~= ns);
            assert(entry_models(entries@) =~= ms.update(i as int, m));
        }
        self.entries = entries;
    }

    /// Writes the attributes of `attrs` to the record of `key` in `space`.
    pub fn put(&mut self, space: &String, key: &Value, attrs: &Object) -> (r: Result<(), Error>)
        ensures
            (r, final(self)@) == store_put(old(self)@, space@, key@, attrs@),
    {
        proof {
            use_type_invariant(&*self);
        }
        match self.find(space) {
            Some(i) => {
                let ghost before = self.entries@;
                let (rest, mut entry) = self.take(i);
                let r = entry.space.put(key, attrs);
                self.put_back(rest, i, entry, Ghost(before));
                r
            },
            None => Err(Error::InvalidArgument),
        }
    }

    /// Removes the record of `key` from `space`.
    pub fn del(&mut self, space: &String, key: &Value) -> (r: Result<(), Error>)
        ensures
            (r, final(self)@) == store_del(old(self)@, space@, key@),
    {
        proof {
            use_type_invariant(&*self);
        }
        match self.find(space) {
            Some(i) => {
                let ghost before = self.entries@;
                let (rest, mut entry) = self.take(i);
                let r = entry.space.del(key);
                self.put_back(rest, i, entry, Ghost(before));
                r
            },
            None => Err(Error::InvalidArgument),
        }
    }

    /// Writes as `put` does if the record of `key` in `space` satisfies all
    /// predicates, and fails with `ConditionFailed` otherwise.
    pub fn cond_put(
        &mut self,
        space: &String,
        key: &Value,
        preds: &Vec<Predicate>,
        attrs: &Object,
    ) -> (r: Result<(), Error>)
        ensures
            (r, final(self)@) == store_cond_put(
                old(self)@,
                space@,
                key@,
                predicate_views(preds@),
                attrs@,
            ),
    {
        proof {
            use_type_invariant(&*self);
        }
        match self.find(space) {
            Some(i) => {
                let ghost before = self.entries@;
                let (rest, mut entry) = self.take(i);
                let r = entry.space.cond_put(key, preds, attrs);
                self.put_back(rest, i, entry, Ghost(before));
                r
            },
            None => Err(Error::InvalidArgument),
        }
    }
}

} // verus!
