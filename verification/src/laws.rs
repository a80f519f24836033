//! What holds of every space, whatever it contains: how the operations
//! relate to one another.

use vstd::prelude::*;
use crate::error::Error;
use crate::object::{
    attr_agrees, attr_loosely_agrees, objects_equal, objects_loosely_equal, Attrs,
};
use crate::predicate::{evaluate, Operator, PredicateModel};
use crate::scalar::ScalarModel;
use crate::schema::Schema;
use crate::space::{
    all_accepted, all_hold, cond_put_outcome, conforms, current, full_object, holds, matching,
    read_outcome, write_allowed, written, Contents,
};
use crate::value::{zero_model, ValueModel};

verus! {

/// What was written is read back: after a write of the single attribute
/// `a` with value `v`, a read of the key succeeds and returns `v` for `a`.
/// Every other declared attribute is as it was before the write, which for
/// a key that was absent is the zero value of its type.
pub proof fn lemma_round_trip(
    schema: Schema,
    contents: Contents,
    key: ValueModel,
    a: Seq<char>,
    v: ValueModel,
)
    requires
        conforms(schema, contents),
        write_allowed(schema, key, map![a => v]),
    ensures
        ({
            let after = written(schema.types(), contents, key, map![a => v]);
            let got = read_outcome(schema.key_type(), after, key);
            &&& got is Ok
            &&& got->Ok_0[a] == v
            &&& forall|b: Seq<char>|
                b != a && schema.types().dom().contains(b) ==> #[trigger] got->Ok_0[b] == current(
                    schema.types(),
                    contents,
                    key,
                )[b]
            &&& !contents.dom().contains(key) ==> forall|b: Seq<char>|
                b != a && schema.types().dom().contains(b) ==> #[trigger] got->Ok_0[b]
                    == zero_model(schema.types()[b])
        }),
{
    assert(map![a => v].dom().contains(a));
}

/// Writes are partial updates: after a write of `a` and then a write of
/// another attribute `b`, a read returns both values.
pub proof fn lemma_partial_update(
    schema: Schema,
    contents: Contents,
    key: ValueModel,
    a: Seq<char>,
    v1: ValueModel,
    b: Seq<char>,
    v2: ValueModel,
)
    requires
        a != b,
        write_allowed(schema, key, map![a => v1]),
        write_allowed(schema, key, map![b => v2]),
    ensures
        ({
            let first = written(schema.types(), contents, key, map![a => v1]);
            let second = written(schema.types(), first, key, map![b => v2]);
            let got = read_outcome(schema.key_type(), second, key);
            &&& got is Ok
            &&& got->Ok_0[a] == v1
            &&& got->Ok_0[b] == v2
        }),
{
}

/// A write does not touch the records of other keys.
pub proof fn lemma_write_is_local(
    schema: Schema,
    contents: Contents,
    key: ValueModel,
    update: Attrs,
    other: ValueModel,
)
    requires
        other != key,
    ensures
        read_outcome(
            schema.key_type(),
            written(schema.types(), contents, key, update),
            other,
        ) == read_outcome(schema.key_type(), contents, other),
{
}

/// Writing the same attributes twice is writing them once.
pub proof fn lemma_write_is_idempotent(
    schema: Schema,
    contents: Contents,
    key: ValueModel,
    update: Attrs,
)
    ensures
        written(
            schema.types(),
            written(schema.types(), contents, key, update),
            key,
            update,
        ) == written(schema.types(), contents, key, update),
{
    let once = written(schema.types(), contents, key, update);
    let twice = written(schema.types(), once, key, update);
    assert(once[key].union_prefer_right(update) =~= once[key]);
    assert(twice =~= once);
}

/// After a removal a read of the key finds nothing.
pub proof fn lemma_delete(schema: Schema, contents: Contents, key: ValueModel)
    requires
        key.value_type() == schema.key_type(),
    ensures
        read_outcome(schema.key_type(), contents.remove(key), key) == Err::<Attrs, Error>(
            Error::NotFound,
        ),
{
}

/// A conditional write either fails and changes nothing, or succeeds and
/// is the plain write.
pub proof fn lemma_cond_put_all_or_nothing(
    schema: Schema,
    contents: Contents,
    key: ValueModel,
    ps: Seq<PredicateModel>,
    update: Attrs,
)
    ensures
        ({
            let (r, after) = cond_put_outcome(schema, contents, key, ps, update);
            &&& r is Err ==> after == contents
            &&& r is Ok ==> after == written(schema.types(), contents, key, update)
            &&& r is Ok <==> write_allowed(schema, key, update) && all_accepted(schema, ps)
                && all_hold(
                ps,
                full_object(schema.key_name(), key, current(schema.types(), contents, key)),
            )
        }),
{
}

/// Compare and swap: with `x` stored for the attribute `a`, a conditional
/// write of `z` under the condition that `a` equals `y` fails with
/// `ConditionFailed` and leaves `x` where `x` is not `y`, and succeeds and
/// leaves `z` where it is.
pub proof fn lemma_compare_and_swap(
    schema: Schema,
    contents: Contents,
    key: ValueModel,
    a: Seq<char>,
    y: ValueModel,
    z: ValueModel,
)
    requires
        conforms(schema, contents),
        contents.dom().contains(key),
        write_allowed(schema, key, map![a => z]),
        !schema.types().dom().contains(schema.key_name()),
        y.value_type() == z.value_type(),
    ensures
        ({
            let x = contents[key][a];
            let condition = seq![PredicateModel { attr: a, op: Operator::Equals, operand: y }];
            let (r, after) = cond_put_outcome(schema, contents, key, condition, map![a => z]);
            &&& x != y ==> r == Err::<(), Error>(Error::ConditionFailed) && after == contents
            &&& x == y ==> r == Ok::<(), Error>(()) && after.dom().contains(key) && after[key][a]
                == z
        }),
{
    let x = contents[key][a];
    let p = PredicateModel { attr: a, op: Operator::Equals, operand: y };
    let condition = seq![p];
    let seen = full_object(schema.key_name(), key, current(schema.types(), contents, key));
    assert(condition[0] == p);
    assert(map![a => z].dom().contains(a));
    assert(schema.types().dom().contains(a));
    assert(schema.accepts(p));
    assert(all_accepted(schema, condition));
    assert(seen[a] == x);
    assert(holds(p, seen) == (x == y));
    if x == y {
        assert(all_hold(condition, seen));
    } else {
        assert(!holds(condition[0], seen));
    }
}

/// Loose equality of objects does not depend on the side: it is symmetric.
pub proof fn lemma_loose_equality_is_symmetric(a: Attrs, b: Attrs)
    ensures
        objects_loosely_equal(a, b) == objects_loosely_equal(b, a),
{
    assert forall|n: Seq<char>| attr_loosely_agrees(a, b, n) == attr_loosely_agrees(b, a, n) by {}
}

/// Objects that are equal are loosely equal.
pub proof fn lemma_equal_objects_are_loosely_equal(a: Attrs, b: Attrs)
    requires
        objects_equal(a, b),
    ensures
        objects_loosely_equal(a, b),
{
    assert forall|n: Seq<char>|
        a.dom().contains(n) || b.dom().contains(n) implies attr_loosely_agrees(a, b, n) by {
        assert(attr_agrees(a, b, n));
    }
}

/// Inclusive bounds are `<=` and `>=`, exclusive bounds `<` and `>`: what
/// the relational operators decide on integers.
pub proof fn lemma_integer_bounds(x: int, bound: int)
    ensures
        evaluate(
            Operator::LessThan,
            ValueModel::Scalar(ScalarModel::Int(x)),
            ValueModel::Scalar(ScalarModel::Int(bound)),
        ) == Ok::<bool, Error>(x < bound),
        evaluate(
            Operator::LessEqual,
            ValueModel::Scalar(ScalarModel::Int(x)),
            ValueModel::Scalar(ScalarModel::Int(bound)),
        ) == Ok::<bool, Error>(x <= bound),
        evaluate(
            Operator::GreaterThan,
            ValueModel::Scalar(ScalarModel::Int(x)),
            ValueModel::Scalar(ScalarModel::Int(bound)),
        ) == Ok::<bool, Error>(x > bound),
        evaluate(
            Operator::GreaterEqual,
            ValueModel::Scalar(ScalarModel::Int(x)),
            ValueModel::Scalar(ScalarModel::Int(bound)),
        ) == Ok::<bool, Error>(x >= bound),
{
}

/// The length operators compare the number of bytes of a string with the
/// operand: equal, at most, at least.
pub proof fn lemma_length_bounds(text: Seq<u8>, bound: int)
    ensures
        evaluate(
            Operator::LengthEquals,
            ValueModel::Scalar(ScalarModel::String(text)),
            ValueModel::Scalar(ScalarModel::Int(bound)),
        ) == Ok::<bool, Error>(text.len() == bound),
        evaluate(
            Operator::LengthLessEqual,
            ValueModel::Scalar(ScalarModel::String(text)),
            ValueModel::Scalar(ScalarModel::Int(bound)),
        ) == Ok::<bool, Error>(text.len() <= bound),
        evaluate(
            Operator::LengthGreaterEqual,
            ValueModel::Scalar(ScalarModel::String(text)),
            ValueModel::Scalar(ScalarModel::Int(bound)),
        ) == Ok::<bool, Error>(text.len() >= bound),
{
}

/// Predicates are conjunctive: a search with the predicates of two
/// searches returns what both return.
pub proof fn lemma_search_is_conjunctive(
    key_name: Seq<char>,
    contents: Contents,
    ps: Seq<PredicateModel>,
    qs: Seq<PredicateModel>,
)
    ensures
        matching(key_name, contents, ps + qs) == matching(key_name, contents, ps).intersect(
            matching(key_name, contents, qs),
        ),
{
    let both = matching(key_name, contents, ps + qs);
    let each = matching(key_name, contents, ps).intersect(matching(key_name, contents, qs));
    assert forall|o: Attrs| all_hold(ps + qs, o) <==> all_hold(ps, o) && all_hold(qs, o) by {
        if all_hold(ps + qs, o) {
            assert forall|i: int| 0 <= i < ps.len() implies holds(#[trigger] ps[i], o) by {
                assert((ps + qs)[i] == ps[i]);
            }
            assert forall|i: int| 0 <= i < qs.len() implies holds(#[trigger] qs[i], o) by {
                assert((ps + qs)[ps.len() + i] == qs[i]);
            }
        }
        if all_hold(ps, o) && all_hold(qs, o) {
            assert forall|i: int| 0 <= i < (ps + qs).len() implies holds(
                #[trigger] (ps + qs)[i],
                o,
            ) by {
                if i < ps.len() {
                    assert((ps + qs)[i] == ps[i]);
                } else {
                    assert((ps + qs)[i] == qs[i - ps.len()]);
                }
            }
        }
    }
    assert(both =~= each);
}

/// A write under a new key adds at most the new record to a search's
/// results, and exactly that record where it satisfies the predicates.
pub proof fn lemma_search_grows_with_writes(
    schema: Schema,
    contents: Contents,
    key: ValueModel,
    update: Attrs,
    ps: Seq<PredicateModel>,
)
    requires
        !contents.dom().contains(key),
    ensures
        ({
            let after = written(schema.types(), contents, key, update);
            let fresh = full_object(schema.key_name(), key, after[key]);
            let before = matching(schema.key_name(), contents, ps);
            &&& !before.contains(fresh)
            &&& all_hold(ps, fresh) ==> matching(schema.key_name(), after, ps) == before.insert(
                fresh,
            )
            &&& !all_hold(ps, fresh) ==> matching(schema.key_name(), after, ps) == before
        }),
{
    let name = schema.key_name();
    let after = written(schema.types(), contents, key, update);
    let fresh = full_object(name, key, after[key]);
    let before = matching(name, contents, ps);
    let now = matching(name, after, ps);
    assert(fresh[name] == key);
    if before.contains(fresh) {
        let k = choose|k: ValueModel|
            contents.dom().contains(k) && fresh == full_object(name, k, #[trigger] contents[k])
                && all_hold(ps, fresh);
        assert(full_object(name, k, contents[k])[name] == k);
    }
    assert forall|o: Attrs| now.contains(o) <==> (before.contains(o) || (o == fresh && all_hold(
        ps,
        fresh,
    ))) by {
        if now.contains(o) {
            let k = choose|k: ValueModel|
                after.dom().contains(k) && o == full_object(name, k, #[trigger] after[k])
                    && all_hold(ps, o);
            if k != key {
                assert(contents.dom().contains(k) && after[k] == contents[k]);
            }
        }
        if before.contains(o) {
            let k = choose|k: ValueModel|
                contents.dom().contains(k) && o == full_object(name, k, #[trigger] contents[k])
                    && all_hold(ps, o);
            assert(after.dom().contains(k) && after[k] == contents[k]);
        }
        if o == fresh && all_hold(ps, fresh) {
            assert(after.dom().contains(key));
        }
    }
    if all_hold(ps, fresh) {
        assert(now =~= before.insert(fresh));
    } else {
        assert(now =~= before);
    }
}

} // verus!
