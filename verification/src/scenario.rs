//! Scenarios: operations with the outcome that is expected of each. A step
//! can be performed on a space in memory, and what any store answered to it
//! can be judged.

use vstd::prelude::*;
use crate::error::Error;
use crate::expect::{
    is_absent, is_applied, is_object, is_object_loosely, is_refused, results_match, same_results,
    strictly_equal,
};
use crate::object::{name_views, objects_loosely_equal, Object};
use crate::predicate::Predicate;
use crate::schema::Schema;
use crate::space::{
    cond_put_outcome, del_outcome, is_search_result, object_views, outcome_view, partial_outcome,
    predicate_views, put_outcome, read_outcome, Contents, Space,
};
use crate::stream::StreamModel;
use crate::value::Value;

verus! {

/// One operation and what is expected of it.
#[derive(Debug)]
pub enum Step {
    /// A write that is acknowledged.
    Put { key: Value, attrs: Object },
    /// A removal that is acknowledged.
    Del { key: Value },
    /// A conditional write that is applied, or one that is refused because
    /// its condition does not hold.
    CondPut { key: Value, preds: Vec<Predicate>, attrs: Object, applies: bool },
    /// A read that finds nothing.
    GetNothing { key: Value },
    /// A read that finds `expected`: strictly equal, or loosely equal where
    /// `loosely` is set, which takes two empty collections of one shape
    /// for equal whatever their element types.
    Get { key: Value, expected: Object, loosely: bool },
    /// A read of some attributes that finds `expected`.
    GetPartial { key: Value, names: Vec<String>, expected: Object },
    /// A search that finds the objects of `wanted`, in whatever order.
    Search { preds: Vec<Predicate>, wanted: Vec<Object> },
}

/// What a store answered to a step.
#[derive(Debug)]
pub enum Response {
    /// The answer to a read.
    Read(Result<Object, Error>),
    /// The answer to a write, a conditional write or a removal.
    Written(Result<(), Error>),
    /// What a search's stream handed out: the objects, and the fault that
    /// ended it if one did.
    Found(Vec<Object>, Option<Error>),
}

/// Whether the response is what the step expects. A response of another
/// kind than the step's never is.
pub open spec fn meets(step: Step, response: Response) -> bool {
    match (step, response) {
        (Step::Put { .. }, Response::Written(r)) => r is Ok,
        (Step::Del { .. }, Response::Written(r)) => r is Ok,
        (Step::CondPut { applies, .. }, Response::Written(r)) => {
            if applies {
                r is Ok
            } else {
                r == Err::<(), Error>(Error::ConditionFailed)
            }
        },
        (Step::GetNothing { .. }, Response::Read(r)) => r matches Err(e) && e == Error::NotFound,
        (Step::Get { expected, loosely, .. }, Response::Read(r)) => {
            r matches Ok(o) && if loosely {
                objects_loosely_equal(o@, expected@)
            } else {
                strictly_equal(o@, expected@)
            }
        },
        (Step::GetPartial { expected, .. }, Response::Read(r)) => {
            r matches Ok(o) && strictly_equal(o@, expected@)
        },
        (Step::Search { wanted, .. }, Response::Found(items, fault)) => {
            fault is None && results_match(object_views(items@), object_views(wanted@))
        },
        _ => false,
    }
}

/// Whether `response` and `after` are what a space with the contents
/// `before` answers to the step and holds after it.
pub open spec fn performed(
    schema: Schema,
    before: Contents,
    step: Step,
    response: Response,
    after: Contents,
) -> bool {
    match step {
        Step::Put { key, attrs } => {
            response matches Response::Written(r) && (r, after) == put_outcome(
                schema,
                before,
                key@,
                attrs@,
            )
        },
        Step::Del { key } => {
            response matches Response::Written(r) && (r, after) == del_outcome(
                schema,
                before,
                key@,
            )
        },
        Step::CondPut { key, preds, attrs, .. } => {
            response matches Response::Written(r) && (r, after) == cond_put_outcome(
                schema,
                before,
                key@,
                predicate_views(preds@),
                attrs@,
            )
        },
        Step::GetNothing { key } => {
            &&& after == before
            &&& response matches Response::Read(r)
            &&& outcome_view(r) == read_outcome(schema.key_type(), before, key@)
        },
        Step::Get { key, .. } => {
            &&& after == before
            &&& response matches Response::Read(r)
            &&& outcome_view(r) == read_outcome(schema.key_type(), before, key@)
        },
        Step::GetPartial { key, names, .. } => {
            &&& after == before
            &&& response matches Response::Read(r)
            &&& outcome_view(r) == partial_outcome(
                schema.key_type(),
                before,
                key@,
                name_views(names@).to_set(),
            )
        },
        Step::Search { preds, .. } => {
            &&& after == before
            &&& response matches Response::Found(items, fault)
            &&& is_search_result(
                schema,
                before,
                predicate_views(preds@),
                StreamModel { buffered: object_views(items@), open: 0, fault },
            )
        },
    }
}

/// Performs the step's operation on a space in memory.
pub fn perform(space: &mut Space, step: &Step) -> (response: Response)
    ensures
        final(space).schema() == old(space).schema(),
        performed(old(space).schema(), old(space)@, *step, response, final(space)@),
{
    match step {
        Step::Put { key, attrs } => Response::Written(space.put(key, attrs)),
        Step::Del { key } => Response::Written(space.del(key)),
        Step::CondPut { key, preds, attrs, .. } => Response::Written(
            space.cond_put(key, preds, attrs),
        ),
        Step::GetNothing { key } => Response::Read(space.get(key)),
        Step::Get { key, .. } => Response::Read(space.get(key)),
        Step::GetPartial { key, names, .. } => Response::Read(space.get_partial(key, names)),
        Step::Search { preds, .. } => {
            let mut stream = space.search(preds);
            let (items, fault) = stream.drain();
            Response::Found(items, fault)
        },
    }
}

/// Whether the response is what the step expects.
pub fn judge(step: &Step, response: &Response) -> (r: bool)
    ensures
        r == meets(*step, *response),
{
    match response {
        Response::Written(outcome) => {
            match step {
                Step::Put { .. } => is_applied(outcome),
                Step::Del { .. } => is_applied(outcome),
                Step::CondPut { applies, .. } => {
                    if *applies {
                        is_applied(outcome)
                    } else {
                        is_refused(outcome)
                    }
                },
                _ => false,
            }
        },
        Response::Read(outcome) => {
            match step {
                Step::GetNothing { .. } => is_absent(outcome),
                Step::Get { expected, loosely, .. } => {
                    if *loosely {
                        is_object_loosely(outcome, expected)
                    } else {
                        is_object(outcome, expected)
                    }
                },
                Step::GetPartial { expected, .. } => is_object(outcome, expected),
                _ => false,
            }
        },
        Response::Found(items, fault) => {
            match step {
                Step::Search { wanted, .. } => fault.is_none() && same_results(items, wanted),
                _ => false,
            }
        },
    }
}

} // verus!
