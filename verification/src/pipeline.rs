//! Requests in flight on one connection: several may be outstanding at
//! once, and each response goes to the request that it answers.

use vstd::prelude::*;
use crate::assoc::{
    lemma_pairing_at, lemma_pairing_dom, lemma_pairing_empty, lemma_pairing_push,
    lemma_pairing_remove, lemma_pairing_update, pairing,
};
use crate::client::{
    outcome_of, payload_model, reply_of, state_of, OpKind, OpStateModel, Operation, Reply,
};
use crate::error::Error;
use crate::object::{Attrs, Object};

verus! {

/// The content of an operation: what was asked and where it stands.
pub struct OperationModel {
    pub kind: OpKind,
    pub state: OpStateModel,
}

/// The operations in flight, by request number.
pub type InFlight = Map<int, OperationModel>;

/// The operations after a response for request `id` arrived: the request
/// moves to the state of its outcome if it was pending. A response for a
/// request that is not in flight, or that has its response already, changes
/// nothing.
pub open spec fn after_response(
    ops: InFlight,
    id: int,
    reply: Reply,
    payload: Option<Attrs>,
) -> InFlight {
    if ops.dom().contains(id) && ops[id].state is Pending {
        ops.insert(
            id,
            OperationModel {
                kind: ops[id].kind,
                state: state_of(outcome_of(ops[id].kind, reply, payload)),
            },
        )
    } else {
        ops
    }
}

struct Slot {
    id: i64,
    op: Operation,
}

spec fn slot_ids(slots: Seq<Slot>) -> Seq<int> {
    Seq::new(slots.len(), |i: int| slots[i].id as int)
}

spec fn slot_models(slots: Seq<Slot>) -> Seq<OperationModel> {
    Seq::new(
        slots.len(),
        |i: int| OperationModel { kind: slots[i].op.kind, state: slots[i].op.state@ },
    )
}

/// The requests of one connection that were sent and not collected yet.
pub struct Pipeline {
    slots: Vec<Slot>,
}

impl View for Pipeline {
    type V = InFlight;

    closed spec fn view(&self) -> InFlight {
        pairing(slot_ids(self.slots@), slot_models(self.slots@))
    }
}

impl Pipeline {
    #[verifier::type_invariant]
    spec fn well_formed(self) -> bool {
        slot_ids(self.slots@).no_duplicates()
    }

    /// A connection without requests.
    pub fn new() -> (r: Pipeline)
        ensures
            r@ == Map::<int, OperationModel>::empty(),
    {
        let r = Pipeline { slots: Vec::new() };
        proof {
            assert(slot_ids(r.slots@) =~= Seq::<int>::empty());
            assert(slot_models(r.slots@) =~= Seq::<OperationModel>::empty());
            lemma_pairing_empty::<int, OperationModel>();
        }
        r
    }

    /// The number of requests in flight.
    pub fn len(&self) -> (r: usize)
        ensures
            r == self@.dom().len(),
    {
        proof {
            use_type_invariant(self);
            slot_ids(self.slots@).unique_seq_to_set();
            lemma_pairing_dom(slot_ids(self.slots@), slot_models(self.slots@));
        }
        self.slots.len()
    }

    fn find(&self, id: i64) -> (r: Option<usize>)
        ensures
            r matches Some(i) ==> i < self.slots.len() && self.slots@[i as int].id == id
                && self@[id as int] == slot_models(self.slots@)[i as int],
            r.is_some() == self@.dom().contains(id as int),
    {
        proof {
            use_type_invariant(self);
            lemma_pairing_dom(slot_ids(self.slots@), slot_models(self.slots@));
        }
        let mut i: usize = 0;
        while i < self.slots.len()
            invariant
                i <= self.slots.len(),
                slot_ids(self.slots@).no_duplicates(),
                forall|k: int| 0 <= k < i ==> slot_ids(self.slots@)[k] != id as int,
            decreases self.slots.len() - i,
        {
            if self.slots[i].id == id {
                proof {
                    assert(slot_ids(self.slots@)[i as int] == id as int);
                    assert(slot_ids(self.slots@).contains(id as int));
                    lemma_pairing_at(slot_ids(self.slots@), slot_models(self.slots@), i as int);
                }
                return Some(i);
            }
            i += 1;
        }
        None
    }

    /// Whether the request `id` is in flight and has its response.
    pub fn is_resolved(&self, id: i64) -> (r: bool)
        ensures
            r == (self@.dom().contains(id as int) && !(self@[id as int].state is Pending)),
    {
        match self.find(id) {
            Some(i) => self.slots[i].op.is_resolved(),
            None => false,
        }
    }

    /// Records that the request `id` was sent. A negative number stands
    /// for a request that could not be sent, a `TransportError`; a number
    /// that is in flight is an `InvalidArgument`. Neither changes anything.
    pub fn submit(&mut self, id: i64, kind: OpKind) -> (r: Result<(), Error>)
        ensures
            id < 0 ==> r == Err::<(), Error>(Error::TransportError) && final(self)@ == old(self)@,
            id >= 0 && old(self)@.dom().contains(id as int) ==> r == Err::<(), Error>(
                Error::InvalidArgument,
            ) && final(self)@ == old(self)@,
            id >= 0 && !old(self)@.dom().contains(id as int) ==> r is Ok && final(self)@ == old(
                self,
            )@.insert(id as int, OperationModel { kind, state: OpStateModel::Pending }),
    {
        proof {
            use_type_invariant(&*self);
            lemma_pairing_dom(slot_ids(self.slots@), slot_models(self.slots@));
        }
        if id < 0 {
            return Err(Error::TransportError);
        }
        if self.find(id).is_some() {
            return Err(Error::InvalidArgument);
        }
        let ghost ids = slot_ids(self.slots@);
        let ghost ms = slot_models(self.slots@);
        let ghost m = OperationModel { kind, state: OpStateModel::Pending };
        let mut slots: Vec<Slot> = Vec::new();
        std::mem::swap(&mut slots, &mut self.slots);
        slots.push(Slot { id, op: Operation::begin(kind) });
        proof {
            lemma_pairing_push(ids, ms, id as int, m);
            assert(slot_ids(slots@) =~= ids.push(id as int));
            assert(slot_models(slots@) =~= ms.push(m));
        }
        self.slots = slots;
        Ok(())
    }

    /// Takes in the response for the request `id`. Returns whether the
    /// request is in flight.
    pub fn on_response(&mut self, id: i64, status: u32, payload: Option<Object>) -> (r: bool)
        ensures
            r == old(self)@.dom().contains(id as int),
            final(self)@ == after_response(
                old(self)@,
                id as int,
                reply_of(status),
                payload_model(payload),
            ),
    {
        proof {
            use_type_invariant(&*self);
        }
        match self.find(id) {
            Some(i) => {
                let ghost ids = slot_ids(self.slots@);
                let ghost ms = slot_models(self.slots@);
                let mut slots: Vec<Slot> = Vec::new();
                std::mem::swap(&mut slots, &mut self.slots);
                let ghost before = slots@;
                let mut slot = slots.remove(i);
                slot.op.on_response(status, payload);
                let ghost m = OperationModel { kind: slot.op.kind, state: slot.op.state@ };
                slots.insert(i, slot);
                proof {
                    lemma_pairing_update(ids, ms, i as int, m);
                    assert(slot_ids(slots@) =~= ids);
                    assert(slot_models(slots@) =~= ms.update(i as int, m));
                    assert(ms[i as int] == OperationModel {
                        kind: before[i as int].op.kind,
                        state: before[i as int].op.state@,
                    });
                    if !(ms[i as int].state is Pending) {
                        assert(m == ms[i as int]);
                        assert(pairing(ids, ms).insert(id as int, m) =~= pairing(ids, ms));
                    }
                }
                self.slots = slots;
                true
            },
            None => false,
        }
    }

    /// Hands out the request `id` once it has its response, and forgets it.
    /// A request that is pending or not in flight stays as it is.
    pub fn collect(&mut self, id: i64) -> (r: Option<Operation>)
        ensures
            r.is_some() == (old(self)@.dom().contains(id as int) && !(old(self)@[id as int].state
                is Pending)),
            r matches Some(op) ==> (OperationModel { kind: op.kind, state: op.state@ }) == old(
                self,
            )@[id as int] && final(self)@ == old(self)@.remove(id as int),
            r is None ==> final(self)@ == old(self)@,
    {
        proof {
            use_type_invariant(&*self);
        }
        match self.find(id) {
            Some(i) => {
                if !self.slots[i].op.is_resolved() {
                    return None;
                }
                let ghost ids = slot_ids(self.slots@);
                let ghost ms = slot_models(self.slots@);
                let mut slots: Vec<Slot> = Vec::new();
                std::mem::swap(&mut slots, &mut self.slots);
                let slot = slots.remove(i);
                proof {
                    lemma_pairing_remove(ids, ms, i as int);
                    assert(slot_ids(slots@) =~= ids.remove(i as int));
                    assert(slot_models(slots@) =~= ms.remove(i as int));
                }
                self.slots = slots;
                Some(slot.op)
            },
            None => None,
        }
    }
}

} // verus!
