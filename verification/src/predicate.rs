//! Predicates: one condition on one attribute, as searches and conditional
//! writes use them.

use vstd::prelude::*;
use crate::error::Error;
use crate::scalar::{
    lemma_model_lt_asymmetric, lemma_model_lt_irreflexive, lemma_model_lt_total, model_lt,
    ScalarModel, ScalarType,
};
use crate::value::{ordered_before, Value, ValueModel, ValueType};

verus! {

/// The nine operators.
#[derive(Clone, Copy, Debug, PartialEq, Eq, Structural)]
pub enum Operator {
    Equals,
    LessThan,
    LessEqual,
    GreaterThan,
    GreaterEqual,
    Regex,
    LengthEquals,
    LengthLessEqual,
    LengthGreaterEqual,
}

/// Whether `regex::bytes::Regex::new` accepts the pattern: it is UTF-8 and a
/// regular expression within the default size limit.
pub uninterp spec fn regex_accepts(pattern: Seq<u8>) -> bool;

/// Whether the regular expression compiled from the pattern matches
/// somewhere in the text (`regex::bytes::Regex::is_match`).
pub uninterp spec fn regex_finds(pattern: Seq<u8>, text: Seq<u8>) -> bool;

/// Compiles the pattern with `regex::bytes::Regex::new` and searches the
/// text with `is_match`. `None` stands for a pattern that is not UTF-8 or
/// that `new` refuses. The result depends on the two byte strings alone.
#[verifier::external_body]
fn regex_search(pattern: &Vec<u8>, text: &Vec<u8>) -> (r: Option<bool>)
    ensures
        r == (if regex_accepts(pattern@) {
            Some(regex_finds(pattern@, text@))
        } else {
            None::<bool>
        }),
{
    match core::str::from_utf8(pattern.as_slice()) {
        Ok(source) => match regex::bytes::Regex::new(source) {
            Ok(compiled) => Some(compiled.is_match(text.as_slice())),
            Err(_) => None,
        },
        Err(_) => None,
    }
}

/// The verdict of a pattern search: a malformed pattern is an
/// `InvalidArgument`.
pub open spec fn regex_verdict(outcome: Option<bool>) -> Result<bool, Error> {
    match outcome {
        Some(found) => Ok(found),
        None => Err(Error::InvalidArgument),
    }
}

/// `a` sorts before `b` or is `b`.
pub open spec fn model_le(a: ScalarModel, b: ScalarModel) -> bool {
    a == b || model_lt(a, b)
}

/// The inclusive order of two scalars of one type; everything else is an
/// `InvalidArgument`.
pub open spec fn ordered_up_to(a: ValueModel, b: ValueModel) -> Result<bool, Error> {
    match (a, b) {
        (ValueModel::Scalar(x), ValueModel::Scalar(y)) => {
            if x.scalar_type() == y.scalar_type() {
                Ok(model_le(x, y))
            } else {
                Err(Error::InvalidArgument)
            }
        },
        _ => Err(Error::InvalidArgument),
    }
}

/// What a length operator decides on an attribute's size and an integer
/// operand.
pub open spec fn length_verdict(op: Operator, size: nat, bound: int) -> bool {
    match op {
        Operator::LengthEquals => size == bound,
        Operator::LengthLessEqual => size <= bound,
        _ => size >= bound,
    }
}

/// The meaning of an operator on an attribute's value and an operand:
/// whether the value matches, or `InvalidArgument` where the operator does
/// not apply to these types or the pattern is malformed.
pub open spec fn evaluate(op: Operator, value: ValueModel, operand: ValueModel) -> Result<
    bool,
    Error,
> {
    match op {
        Operator::Equals => {
            if value.value_type() == operand.value_type() {
                Ok(value == operand)
            } else {
                Err(Error::InvalidArgument)
            }
        },
        Operator::LessThan => ordered_before(value, operand),
        Operator::LessEqual => ordered_up_to(value, operand),
        Operator::GreaterThan => ordered_before(operand, value),
        Operator::GreaterEqual => ordered_up_to(operand, value),
        Operator::Regex => {
            match (value, operand) {
                (
                    ValueModel::Scalar(ScalarModel::String(text)),
                    ValueModel::Scalar(ScalarModel::String(pattern)),
                ) => {
                    if regex_accepts(pattern) {
                        Ok(regex_finds(pattern, text))
                    } else {
                        Err(Error::InvalidArgument)
                    }
                },
                _ => Err(Error::InvalidArgument),
            }
        },
        _ => {
            match (value.length(), operand) {
                (Some(size), ValueModel::Scalar(ScalarModel::Int(bound))) => Ok(
                    length_verdict(op, size, bound),
                ),
                _ => Err(Error::InvalidArgument),
            }
        },
    }
}

/// Whether an operator with this operand applies to attributes of the
/// declared type `t`: equality wants an operand of the same type, the
/// relational operators a scalar attribute and an operand of the same type,
/// a pattern a string attribute and a well-formed pattern, the length
/// operators a string or a collection and an integer operand.
pub open spec fn fits(op: Operator, t: ValueType, operand: ValueModel) -> bool {
    match op {
        Operator::Equals => operand.value_type() == t,
        Operator::LessThan | Operator::LessEqual | Operator::GreaterThan | Operator::GreaterEqual => {
            t is Scalar && operand.value_type() == t
        },
        Operator::Regex => {
            &&& t == ValueType::Scalar(ScalarType::String)
            &&& operand matches ValueModel::Scalar(ScalarModel::String(pattern))
            &&& regex_accepts(pattern)
        },
        _ => {
            &&& t != ValueType::Scalar(ScalarType::Int)
            &&& t != ValueType::Scalar(ScalarType::Float)
            &&& operand.value_type() == ValueType::Scalar(ScalarType::Int)
        },
    }
}

/// An operator decides on every value of a type exactly when it fits the
/// type.
pub proof fn lemma_fits_decides(op: Operator, value: ValueModel, operand: ValueModel)
    ensures
        evaluate(op, value, operand).is_ok() == fits(op, value.value_type(), operand),
        evaluate(op, value, operand) is Err ==> evaluate(op, value, operand) == Err::<bool, Error>(
            Error::InvalidArgument,
        ),
{
}

/// The content of a predicate.
pub struct PredicateModel {
    pub attr: Seq<char>,
    pub op: Operator,
    pub operand: ValueModel,
}

/// One filter condition: an attribute's name, an operator and an operand.
#[derive(Debug)]
pub struct Predicate {
    pub attr: String,
    pub op: Operator,
    pub operand: Value,
}

impl View for Predicate {
    type V = PredicateModel;

    open spec fn view(&self) -> PredicateModel {
        PredicateModel { attr: self.attr@, op: self.op, operand: self.operand@ }
    }
}

/// What a pattern search's outcome says of the predicate.
pub fn verdict_of(outcome: Option<bool>) -> (r: Result<bool, Error>)
    ensures
        r == regex_verdict(outcome),
{
    match outcome {
        Some(found) => Ok(found),
        None => Err(Error::InvalidArgument),
    }
}

/// Inclusive order from the strict one.
fn up_to(a: &Value, b: &Value) -> (r: Result<bool, Error>)
    ensures
        r == ordered_up_to(a@, b@),
{
    match b.less(a) {
        Ok(after) => {
            proof {
                if let (ValueModel::Scalar(x), ValueModel::Scalar(y)) = (a@, b@) {
                    lemma_model_lt_total(x, y);
                    lemma_model_lt_irreflexive(x);
                    if model_lt(x, y) {
                        lemma_model_lt_asymmetric(x, y);
                    }
                }
            }
            Ok(!after)
        },
        Err(e) => Err(e),
    }
}

impl Predicate {
    /// The predicate `attr op operand`.
    pub fn new(attr: String, op: Operator, operand: Value) -> (r: Predicate)
        ensures
            r@ == (PredicateModel { attr: attr@, op, operand: operand@ }),
    {
        Predicate { attr, op, operand }
    }

    /// Decides the predicate on the value of its attribute.
    pub fn test(&self, value: &Value) -> (r: Result<bool, Error>)
        ensures
            r == evaluate(self.op, value@, self.operand@),
    {
        match self.op {
            Operator::Equals => value.same(&self.operand),
            Operator::LessThan => value.less(&self.operand),
            Operator::LessEqual => up_to(value, &self.operand),
            Operator::GreaterThan => self.operand.less(value),
            Operator::GreaterEqual => up_to(&self.operand, value),
            Operator::Regex => {
                match (value, &self.operand) {
                    (Value::String(text), Value::String(pattern)) => verdict_of(
                        regex_search(pattern, text),
                    ),
                    _ => Err(Error::InvalidArgument),
                }
            },
            Operator::LengthEquals => {
                match (value.length(), &self.operand) {
                    (Some(size), Value::Int(bound)) => Ok(*bound >= 0 && size as u64 == *bound as u64),
                    _ => Err(Error::InvalidArgument),
                }
            },
            Operator::LengthLessEqual => {
                match (value.length(), &self.operand) {
                    (Some(size), Value::Int(bound)) => Ok(*bound >= 0 && size as u64 <= *bound as u64),
                    _ => Err(Error::InvalidArgument),
                }
            },
            Operator::LengthGreaterEqual => {
                match (value.length(), &self.operand) {
                    (Some(size), Value::Int(bound)) => Ok(*bound < 0 || size as u64 >= *bound as u64),
                    _ => Err(Error::InvalidArgument),
                }
            },
        }
    }

    /// Whether the predicate applies to attributes of the declared type `t`.
    pub fn fits_type(&self, t: ValueType) -> (r: bool)
        ensures
            r == fits(self.op, t, self.operand@),
    {
        match self.op {
            Operator::Equals => self.operand.value_type() == t,
            Operator::LessThan | Operator::LessEqual | Operator::GreaterThan | Operator::GreaterEqual => {
                match t {
                    ValueType::Scalar(_) => self.operand.value_type() == t,
                    _ => false,
                }
            },
            Operator::Regex => {
                match (t, &self.operand) {
                    (ValueType::Scalar(ScalarType::String), Value::String(pattern)) => {
                        let empty: Vec<u8> = Vec::new();
                        regex_search(pattern, &empty).is_some()
                    },
                    _ => false,
                }
            },
            _ => {
                match (t, &self.operand) {
                    (ValueType::Scalar(ScalarType::Int), _) => false,
                    (ValueType::Scalar(ScalarType::Float), _) => false,
                    (_, Value::Int(_)) => true,
                    _ => false,
                }
            },
        }
    }
}

} // verus!
