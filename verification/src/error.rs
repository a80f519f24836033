//! Failure outcomes of client operations.

use vstd::prelude::*;

verus! {

/// How an operation can fail. Every failure is handed back as a value;
/// none is replaced by a default result.
#[derive(Clone, Copy, Debug, PartialEq, Eq, Structural)]
pub enum Error {
    /// The key is absent. Only read operations report this.
    NotFound,
    /// The precondition of a conditional write did not hold; nothing was
    /// written.
    ConditionFailed,
    /// An argument does not fit the space's schema or is malformed.
    InvalidArgument,
    /// The connection failed or timed out.
    TransportError,
}

impl Error {
    /// Whether a caller may sensibly retry with updated assumptions: true
    /// exactly for a failed precondition.
    pub fn is_retryable(&self) -> (r: bool)
        ensures
            r == (*self == Error::ConditionFailed),
    {
        match self {
            Error::ConditionFailed => true,
            _ => false,
        }
    }
}

} // verus!
