//! The client's side of an operation: from the status that the store
//! reports to the outcome that the caller sees.

use vstd::prelude::*;
use crate::error::Error;
use crate::object::{Attrs, Object};
use crate::stream::{SearchStream, StreamModel};

verus! {

/// The operation succeeded.
pub const STATUS_SUCCESS: u32 = 8448;

/// The key is absent.
pub const STATUS_NOT_FOUND: u32 = 8449;

/// A search has no more results.
pub const STATUS_SEARCH_DONE: u32 = 8450;

/// The predicates of a conditional write did not hold.
pub const STATUS_COMPARE_FAILED: u32 = 8451;

/// The space is not known.
pub const STATUS_UNKNOWN_SPACE: u32 = 8512;

/// An attribute is not declared.
pub const STATUS_UNKNOWN_ATTRIBUTE: u32 = 8520;

/// An attribute was named twice.
pub const STATUS_DUPLICATE_ATTRIBUTE: u32 = 8521;

/// The key attribute was named where only other attributes may be.
pub const STATUS_KEY_MISUSED: u32 = 8524;

/// A value does not have the declared type.
pub const STATUS_WRONG_TYPE: u32 = 8525;

/// What a status says.
#[derive(Clone, Copy, Debug, PartialEq, Eq, Structural)]
pub enum Reply {
    Success,
    NotFound,
    SearchDone,
    CompareFailed,
    /// The request did not fit the schema.
    Rejected,
    /// Everything else: the connection, the coordinator or a server failed.
    Fault,
}

/// The reading of a status code.
pub open spec fn reply_of(status: u32) -> Reply {
    if status == STATUS_SUCCESS {
        Reply::Success
    } else if status == STATUS_NOT_FOUND {
        Reply::NotFound
    } else if status == STATUS_SEARCH_DONE {
        Reply::SearchDone
    } else if status == STATUS_COMPARE_FAILED {
        Reply::CompareFailed
    } else if status == STATUS_UNKNOWN_SPACE || status == STATUS_UNKNOWN_ATTRIBUTE || status
        == STATUS_DUPLICATE_ATTRIBUTE || status == STATUS_KEY_MISUSED || status
        == STATUS_WRONG_TYPE {
        Reply::Rejected
    } else {
        Reply::Fault
    }
}

/// Reads a status code.
pub fn classify(status: u32) -> (r: Reply)
    ensures
        r == reply_of(status),
{
    if status == STATUS_SUCCESS {
        Reply::Success
    } else if status == STATUS_NOT_FOUND {
        Reply::NotFound
    } else if status == STATUS_SEARCH_DONE {
        Reply::SearchDone
    } else if status == STATUS_COMPARE_FAILED {
        Reply::CompareFailed
    } else if status == STATUS_UNKNOWN_SPACE || status == STATUS_UNKNOWN_ATTRIBUTE || status
        == STATUS_DUPLICATE_ATTRIBUTE || status == STATUS_KEY_MISUSED || status
        == STATUS_WRONG_TYPE {
        Reply::Rejected
    } else {
        Reply::Fault
    }
}

/// The operations that are answered by one response.
#[derive(Clone, Copy, Debug, PartialEq, Eq, Structural)]
pub enum OpKind {
    Get,
    GetPartial,
    Put,
    CondPut,
    Del,
}

impl OpKind {
    /// Whether the operation reads a record.
    pub open spec fn is_read(self) -> bool {
        self == OpKind::Get || self == OpKind::GetPartial
    }
}

/// What the caller of an operation gets: the object that a read found,
/// nothing for a write that was applied, or the failure.
pub type Outcome = Result<Option<Attrs>, Error>;

/// The outcome of an operation, given the reply and the object that came
/// with it.
///
/// A read succeeds with its object; a successful read without one is a
/// fault. A write succeeds with nothing. An absent key is `NotFound` for a
/// read, nothing to remove for `Del`, and a failed condition for `CondPut`.
/// A failed comparison is `ConditionFailed` for `CondPut`. A rejected
/// request is an `InvalidArgument`. A reply that the operation cannot get,
/// and every fault, is a `TransportError`.
pub open spec fn outcome_of(kind: OpKind, reply: Reply, payload: Option<Attrs>) -> Outcome {
    match reply {
        Reply::Success => {
            if kind.is_read() {
                match payload {
                    Some(obj) => Ok(Some(obj)),
                    None => Err(Error::TransportError),
                }
            } else {
                Ok(None)
            }
        },
        Reply::NotFound => {
            if kind.is_read() {
                Err(Error::NotFound)
            } else if kind == OpKind::Del {
                Ok(None)
            } else if kind == OpKind::CondPut {
                Err(Error::ConditionFailed)
            } else {
                Err(Error::TransportError)
            }
        },
        Reply::CompareFailed => {
            if kind == OpKind::CondPut {
                Err(Error::ConditionFailed)
            } else {
                Err(Error::TransportError)
            }
        },
        Reply::Rejected => Err(Error::InvalidArgument),
        Reply::SearchDone => Err(Error::TransportError),
        Reply::Fault => Err(Error::TransportError),
    }
}

/// The attributes of an operation's outcome.
pub open spec fn outcome_model(r: Result<Option<Object>, Error>) -> Outcome {
    match r {
        Ok(Some(o)) => Ok(Some(o@)),
        Ok(None) => Ok(None),
        Err(e) => Err(e),
    }
}

/// The attributes of an object that may be missing.
pub open spec fn payload_model(payload: Option<Object>) -> Option<Attrs> {
    match payload {
        Some(o) => Some(o@),
        None => None,
    }
}

/// The outcome of an operation, given the status that the store reported
/// and the object that came with it.
pub fn resolve(kind: OpKind, status: u32, payload: Option<Object>) -> (r: Result<
    Option<Object>,
    Error,
>)
    ensures
        outcome_model(r) == outcome_of(kind, reply_of(status), payload_model(payload)),
{
    let read = match kind {
        OpKind::Get => true,
        OpKind::GetPartial => true,
        _ => false,
    };
    match classify(status) {
        Reply::Success => {
            if read {
                match payload {
                    Some(obj) => Ok(Some(obj)),
                    None => Err(Error::TransportError),
                }
            } else {
                Ok(None)
            }
        },
        Reply::NotFound => {
            match kind {
                OpKind::Get => Err(Error::NotFound),
                OpKind::GetPartial => Err(Error::NotFound),
                OpKind::Del => Ok(None),
                OpKind::CondPut => Err(Error::ConditionFailed),
                OpKind::Put => Err(Error::TransportError),
            }
        },
        Reply::CompareFailed => {
            match kind {
                OpKind::CondPut => Err(Error::ConditionFailed),
                _ => Err(Error::TransportError),
            }
        },
        Reply::Rejected => Err(Error::InvalidArgument),
        Reply::SearchDone => Err(Error::TransportError),
        Reply::Fault => Err(Error::TransportError),
    }
}

/// The failure that a status means for a search.
pub open spec fn search_fault(reply: Reply) -> Error {
    match reply {
        Reply::Rejected => Error::InvalidArgument,
        _ => Error::TransportError,
    }
}

/// The state of a stream after a status arrived for its search: an object
/// on success, the end of one partition, or a fault. Success without an
/// object is a fault.
pub open spec fn stream_after(
    stream: StreamModel,
    reply: Reply,
    payload: Option<Attrs>,
) -> StreamModel {
    match reply {
        Reply::Success => {
            match payload {
                Some(obj) => stream.after_item(obj),
                None => stream.after_fault(Error::TransportError),
            }
        },
        Reply::SearchDone => stream.after_partition_done(),
        _ => stream.after_fault(search_fault(reply)),
    }
}

/// Hands a status that arrived for a search, and the object that came with
/// it, to the search's stream.
pub fn deliver(stream: &mut SearchStream, status: u32, payload: Option<Object>)
    ensures
        final(stream)@ == stream_after(old(stream)@, reply_of(status), payload_model(payload)),
{
    match classify(status) {
        Reply::Success => {
            match payload {
                Some(obj) => stream.on_item(obj),
                None => stream.on_fault(Error::TransportError),
            }
        },
        Reply::SearchDone => stream.on_partition_done(),
        Reply::Rejected => stream.on_fault(Error::InvalidArgument),
        _ => stream.on_fault(Error::TransportError),
    }
}

/// Where an operation stands.
#[derive(Debug)]
pub enum OpState {
    /// No response has arrived.
    Pending,
    /// The operation completed: a read with the object that it found, or
    /// with none where the key is absent; a write with none.
    Completed(Option<Object>),
    /// The operation failed.
    Failed(Error),
}

/// The content of an operation's state.
pub enum OpStateModel {
    Pending,
    Completed(Option<Attrs>),
    Failed(Error),
}

impl View for OpState {
    type V = OpStateModel;

    open spec fn view(&self) -> OpStateModel {
        match self {
            OpState::Pending => OpStateModel::Pending,
            OpState::Completed(payload) => OpStateModel::Completed(payload_model(*payload)),
            OpState::Failed(e) => OpStateModel::Failed(*e),
        }
    }
}

/// The state that an outcome leaves. An absent key completes a read; it is
/// no failure.
pub open spec fn state_of(outcome: Outcome) -> OpStateModel {
    match outcome {
        Ok(payload) => OpStateModel::Completed(payload),
        Err(Error::NotFound) => OpStateModel::Completed(None),
        Err(e) => OpStateModel::Failed(e),
    }
}

/// What the caller of an operation of this kind gets in this state: nothing
/// yet while it is pending, and its outcome after that.
pub open spec fn result_of(kind: OpKind, state: OpStateModel) -> Option<Outcome> {
    match state {
        OpStateModel::Pending => None,
        OpStateModel::Completed(Some(obj)) => Some(Ok(Some(obj))),
        OpStateModel::Completed(None) => {
            if kind.is_read() {
                Some(Err(Error::NotFound))
            } else {
                Some(Ok(None))
            }
        },
        OpStateModel::Failed(e) => Some(Err(e)),
    }
}

/// The state of a resolved operation holds its outcome.
pub proof fn lemma_state_keeps_outcome(kind: OpKind, reply: Reply, payload: Option<Attrs>)
    ensures
        result_of(kind, state_of(outcome_of(kind, reply, payload))) == Some(
            outcome_of(kind, reply, payload),
        ),
{
}

/// The attributes of what an operation hands to its caller.
pub open spec fn result_model(r: Option<Result<Option<Object>, Error>>) -> Option<Outcome> {
    match r {
        Some(outcome) => Some(outcome_model(outcome)),
        None => None,
    }
}

/// One request and what became of it.
#[derive(Debug)]
pub struct Operation {
    pub kind: OpKind,
    pub state: OpState,
}

impl Operation {
    /// An operation that waits for its response.
    pub fn begin(kind: OpKind) -> (r: Operation)
        ensures
            r.kind == kind,
            r.state@ == OpStateModel::Pending,
    {
        Operation { kind, state: OpState::Pending }
    }

    /// Whether the response has arrived.
    pub fn is_resolved(&self) -> (r: bool)
        ensures
            r == !(self.state@ is Pending),
    {
        match self.state {
            OpState::Pending => false,
            _ => true,
        }
    }

    /// Takes in the response. A pending operation moves to the state of
    /// its outcome; a resolved one stays as it is.
    pub fn on_response(&mut self, status: u32, payload: Option<Object>)
        ensures
            final(self).kind == old(self).kind,
            old(self).state@ is Pending ==> final(self).state@ == state_of(
                outcome_of(old(self).kind, reply_of(status), payload_model(payload)),
            ),
            !(old(self).state@ is Pending) ==> final(self).state@ == old(self).state@,
    {
        if !self.is_resolved() {
            match resolve(self.kind, status, payload) {
                Ok(found) => {
                    self.state = OpState::Completed(found);
                },
                Err(Error::NotFound) => {
                    self.state = OpState::Completed(None);
                },
                Err(e) => {
                    self.state = OpState::Failed(e);
                },
            }
        }
    }

    /// What the caller gets: nothing while the operation is pending, and
    /// its outcome after that.
    pub fn into_result(self) -> (r: Option<Result<Option<Object>, Error>>)
        ensures
            result_model(r) == result_of(self.kind, self.state@),
    {
        let read = match self.kind {
            OpKind::Get => true,
            OpKind::GetPartial => true,
            _ => false,
        };
        match self.state {
            OpState::Pending => None,
            OpState::Completed(Some(obj)) => Some(Ok(Some(obj))),
            OpState::Completed(None) => {
                if read {
                    Some(Err(Error::NotFound))
                } else {
                    Some(Ok(None))
                }
            },
            OpState::Failed(e) => Some(Err(e)),
        }
    }
}

} // verus!
