//! Judging what an operation returned against what was expected of it.

use vstd::prelude::*;
use crate::error::Error;
use crate::object::{
    objects_comparable, objects_equal, objects_loosely_equal, sloppy_compare_hyper, Attrs, Object,
};
use crate::space::object_views;

verus! {

/// Whether two objects are equal in the strict sense: comparable, and equal
/// attribute by attribute.
pub open spec fn strictly_equal(a: Attrs, b: Attrs) -> bool {
    objects_comparable(a, b) && objects_equal(a, b)
}

/// Whether a read found nothing: `NotFound`, and no other failure.
pub fn is_absent(outcome: &Result<Object, Error>) -> (r: bool)
    ensures
        r == (outcome matches Err(e) && e == Error::NotFound),
{
    match outcome {
        Err(Error::NotFound) => true,
        _ => false,
    }
}

/// Whether a read returned an object that is strictly equal to the
/// expected one.
pub fn is_object(outcome: &Result<Object, Error>, expected: &Object) -> (r: bool)
    ensures
        r == (outcome matches Ok(o) && strictly_equal(o@, expected@)),
{
    match outcome {
        Ok(found) => {
            match found.same(expected) {
                Ok(equal) => equal,
                Err(_) => false,
            }
        },
        Err(_) => false,
    }
}

/// Whether a read returned an object that is loosely equal to the expected
/// one; see [`sloppy_compare_hyper`].
pub fn is_object_loosely(outcome: &Result<Object, Error>, expected: &Object) -> (r: bool)
    ensures
        r == (outcome matches Ok(o) && objects_loosely_equal(o@, expected@)),
{
    match outcome {
        Ok(found) => sloppy_compare_hyper(found, expected),
        Err(_) => false,
    }
}

/// Whether a write was acknowledged.
pub fn is_applied(outcome: &Result<(), Error>) -> (r: bool)
    ensures
        r == (*outcome is Ok),
{
    match outcome {
        Ok(_) => true,
        Err(_) => false,
    }
}

/// Whether a conditional write was refused because its condition did not
/// hold, and for no other reason.
pub fn is_refused(outcome: &Result<(), Error>) -> (r: bool)
    ensures
        r == (*outcome == Err::<(), Error>(Error::ConditionFailed)),
{
    match outcome {
        Err(Error::ConditionFailed) => true,
        _ => false,
    }
}

/// Whether some object of `found` is strictly equal to `wanted`.
pub open spec fn occurs_in(wanted: Attrs, found: Seq<Attrs>) -> bool {
    exists|j: int| 0 <= j < found.len() && strictly_equal(#[trigger] found[j], wanted)
}

/// Whether a search returned the expected objects, in whatever order: as
/// many as expected, each expected one among those found, and none found
/// that was not expected.
pub open spec fn results_match(found: Seq<Attrs>, expected: Seq<Attrs>) -> bool {
    &&& found.len() == expected.len()
    &&& forall|i: int| 0 <= i < expected.len() ==> occurs_in(#[trigger] expected[i], found)
    &&& forall|i: int| 0 <= i < found.len() ==> occurs_in(#[trigger] found[i], expected)
}

fn occurs(wanted: &Object, found: &Vec<Object>) -> (r: bool)
    ensures
        r == occurs_in(wanted@, object_views(found@)),
{
    let mut j: usize = 0;
    while j < found.len()
        invariant
            j <= found.len(),
            forall|k: int| 0 <= k < j ==> !strictly_equal(#[trigger] object_views(found@)[k], wanted@),
        decreases found.len() - j,
    {
        let equal = match found[j].same(wanted) {
            Ok(e) => e,
            Err(_) => false,
        };
        if equal {
            assert(strictly_equal(object_views(found@)[j as int], wanted@));
            return true;
        }
        j += 1;
    }
    false
}

/// Whether a search returned the expected objects, in whatever order.
pub fn same_results(found: &Vec<Object>, expected: &Vec<Object>) -> (r: bool)
    ensures
        r == results_match(object_views(found@), object_views(expected@)),
{
    if found.len() != expected.len() {
        return false;
    }
    let mut i: usize = 0;
    while i < expected.len()
        invariant
            i <= expected.len(),
            found.len() == expected.len(),
            forall|k: int|
                0 <= k < i ==> occurs_in(
                    #[trigger] object_views(expected@)[k],
                    object_views(found@),
                ),
        decreases expected.len() - i,
    {
        if !occurs(&expected[i], found) {
            assert(!occurs_in(object_views(expected@)[i as int], object_views(found@)));
            return false;
        }
        i += 1;
    }
    let mut j: usize = 0;
    while j < found.len()
        invariant
            j <= found.len(),
            found.len() == expected.len(),
            forall|k: int|
                0 <= k < expected.len() ==> occurs_in(
                    #[trigger] object_views(expected@)[k],
                    object_views(found@),
                ),
            forall|k: int|
                0 <= k < j ==> occurs_in(
                    #[trigger] object_views(found@)[k],
                    object_views(expected@),
                ),
        decreases found.len() - j,
    {
        if !occurs(&found[j], expected) {
            assert(!occurs_in(object_views(found@)[j as int], object_views(expected@)));
            return false;
        }
        j += 1;
    }
    true
}

} // verus!
