//! Attribute values: a closed set of scalars and typed collections.

use vstd::prelude::*;
use crate::collection::{dup_all, models, same_all, SortedMap, SortedSet};
use crate::error::Error;
use crate::scalar::{model_lt, Float, Scalar, ScalarModel, ScalarType};

verus! {

/// The declared type of an attribute: a base type, or a list, set or map
/// over base types.
#[derive(Clone, Copy, Debug, PartialEq, Eq, Structural)]
pub enum ValueType {
    Scalar(ScalarType),
    ListOf(ScalarType),
    SetOf(ScalarType),
    MapOf(ScalarType, ScalarType),
}

/// The mathematical content of a value, with the base types it was declared
/// over. A list is a sequence, a set a set, a map a map.
pub enum ValueModel {
    Scalar(ScalarModel),
    ListOf(ScalarType, Seq<ScalarModel>),
    SetOf(ScalarType, Set<ScalarModel>),
    MapOf(ScalarType, ScalarType, Map<ScalarModel, ScalarModel>),
}

impl ValueModel {
    /// The type that the value was declared with.
    pub open spec fn value_type(self) -> ValueType {
        match self {
            ValueModel::Scalar(s) => ValueType::Scalar(s.scalar_type()),
            ValueModel::ListOf(e, _) => ValueType::ListOf(e),
            ValueModel::SetOf(e, _) => ValueType::SetOf(e),
            ValueModel::MapOf(k, v, _) => ValueType::MapOf(k, v),
        }
    }

    /// The size that the length operators compare: the number of bytes of a
    /// string, the number of elements of a collection. Numbers have none.
    pub open spec fn length(self) -> Option<nat> {
        match self {
            ValueModel::Scalar(ScalarModel::String(s)) => Some(s.len()),
            ValueModel::Scalar(_) => None,
            ValueModel::ListOf(_, s) => Some(s.len()),
            ValueModel::SetOf(_, s) => Some(s.len()),
            ValueModel::MapOf(_, _, m) => Some(m.dom().len()),
        }
    }

    /// Whether the value is a collection without elements.
    pub open spec fn is_empty_collection(self) -> bool {
        !(self is Scalar) && self.length() == Some(0nat)
    }
}

/// The zero value of a type: the empty string, the number 0, the empty
/// collection.
pub open spec fn zero_model(t: ValueType) -> ValueModel {
    match t {
        ValueType::Scalar(ScalarType::String) => ValueModel::Scalar(
            ScalarModel::String(Seq::empty()),
        ),
        ValueType::Scalar(ScalarType::Int) => ValueModel::Scalar(ScalarModel::Int(0)),
        ValueType::Scalar(ScalarType::Float) => ValueModel::Scalar(ScalarModel::Float(0)),
        ValueType::ListOf(e) => ValueModel::ListOf(e, Seq::empty()),
        ValueType::SetOf(e) => ValueModel::SetOf(e, Set::empty()),
        ValueType::MapOf(k, v) => ValueModel::MapOf(k, v, Map::empty()),
    }
}

/// Whether two values are both lists, both sets or both maps, whatever their
/// element types.
pub open spec fn same_shape(a: ValueModel, b: ValueModel) -> bool {
    ||| a is ListOf && b is ListOf
    ||| a is SetOf && b is SetOf
    ||| a is MapOf && b is MapOf
}

/// Equality that also takes two empty collections of one shape for equal
/// where their element types differ: an empty list of integers and an empty
/// list of strings, say. That is a choice; strict equality, which
/// [`Value::same`] decides, refuses to compare them. Nothing else of
/// different types is loosely equal: not an empty list and an empty set,
/// not a filled collection and any of another type, no two scalars.
pub open spec fn loosely_equal(a: ValueModel, b: ValueModel) -> bool {
    a == b || (same_shape(a, b) && a.is_empty_collection() && b.is_empty_collection())
}

/// The content of one attribute.
#[derive(Debug)]
pub enum Value {
    String(Vec<u8>),
    Int(i64),
    Float(Float),
    ListString(Vec<Vec<u8>>),
    ListInt(Vec<i64>),
    ListFloat(Vec<Float>),
    SetString(SortedSet<Vec<u8>>),
    SetInt(SortedSet<i64>),
    SetFloat(SortedSet<Float>),
    MapStringString(SortedMap<Vec<u8>, Vec<u8>>),
    MapStringInt(SortedMap<Vec<u8>, i64>),
    MapStringFloat(SortedMap<Vec<u8>, Float>),
    MapIntString(SortedMap<i64, Vec<u8>>),
    MapIntInt(SortedMap<i64, i64>),
    MapIntFloat(SortedMap<i64, Float>),
    MapFloatString(SortedMap<Float, Vec<u8>>),
    MapFloatInt(SortedMap<Float, i64>),
    MapFloatFloat(SortedMap<Float, Float>),
}

impl View for Value {
    type V = ValueModel;

    open spec fn view(&self) -> ValueModel {
        match self {
            Value::String(x) => ValueModel::Scalar(x.model()),
            Value::Int(x) => ValueModel::Scalar(x.model()),
            Value::Float(x) => ValueModel::Scalar(x.model()),
            Value::ListString(x) => ValueModel::ListOf(ScalarType::String, models(x@)),
            Value::ListInt(x) => ValueModel::ListOf(ScalarType::Int, models(x@)),
            Value::ListFloat(x) => ValueModel::ListOf(ScalarType::Float, models(x@)),
            Value::SetString(x) => ValueModel::SetOf(ScalarType::String, x.members()),
            Value::SetInt(x) => ValueModel::SetOf(ScalarType::Int, x.members()),
            Value::SetFloat(x) => ValueModel::SetOf(ScalarType::Float, x.members()),
            Value::MapStringString(x) => ValueModel::MapOf(ScalarType::String, ScalarType::String, x.map()),
            Value::MapStringInt(x) => ValueModel::MapOf(ScalarType::String, ScalarType::Int, x.map()),
            Value::MapStringFloat(x) => ValueModel::MapOf(ScalarType::String, ScalarType::Float, x.map()),
            Value::MapIntString(x) => ValueModel::MapOf(ScalarType::Int, ScalarType::String, x.map()),
            Value::MapIntInt(x) => ValueModel::MapOf(ScalarType::Int, ScalarType::Int, x.map()),
            Value::MapIntFloat(x) => ValueModel::MapOf(ScalarType::Int, ScalarType::Float, x.map()),
            Value::MapFloatString(x) => ValueModel::MapOf(ScalarType::Float, ScalarType::String, x.map()),
            Value::MapFloatInt(x) => ValueModel::MapOf(ScalarType::Float, ScalarType::Int, x.map()),
            Value::MapFloatFloat(x) => ValueModel::MapOf(ScalarType::Float, ScalarType::Float, x.map()),
        }
    }
}

impl Value {
    /// The type of the value.
    pub fn value_type(&self) -> (r: ValueType)
        ensures
            r == self@.value_type(),
    {
        match self {
            Value::String(_) => ValueType::Scalar(ScalarType::String),
            Value::Int(_) => ValueType::Scalar(ScalarType::Int),
            Value::Float(_) => ValueType::Scalar(ScalarType::Float),
            Value::ListString(_) => ValueType::ListOf(ScalarType::String),
            Value::ListInt(_) => ValueType::ListOf(ScalarType::Int),
            Value::ListFloat(_) => ValueType::ListOf(ScalarType::Float),
            Value::SetString(_) => ValueType::SetOf(ScalarType::String),
            Value::SetInt(_) => ValueType::SetOf(ScalarType::Int),
            Value::SetFloat(_) => ValueType::SetOf(ScalarType::Float),
            Value::MapStringString(_) => ValueType::MapOf(ScalarType::String, ScalarType::String),
            Value::MapStringInt(_) => ValueType::MapOf(ScalarType::String, ScalarType::Int),
            Value::MapStringFloat(_) => ValueType::MapOf(ScalarType::String, ScalarType::Float),
            Value::MapIntString(_) => ValueType::MapOf(ScalarType::Int, ScalarType::String),
            Value::MapIntInt(_) => ValueType::MapOf(ScalarType::Int, ScalarType::Int),
            Value::MapIntFloat(_) => ValueType::MapOf(ScalarType::Int, ScalarType::Float),
            Value::MapFloatString(_) => ValueType::MapOf(ScalarType::Float, ScalarType::String),
            Value::MapFloatInt(_) => ValueType::MapOf(ScalarType::Float, ScalarType::Int),
            Value::MapFloatFloat(_) => ValueType::MapOf(ScalarType::Float, ScalarType::Float),
        }
    }

    /// The zero value of a type.
    pub fn zero(t: ValueType) -> (r: Value)
        ensures
            r@ == zero_model(t),
            r@.value_type() == t,
    {
        match t {
            ValueType::Scalar(ScalarType::String) => Value::String(Vec::new()),
            ValueType::Scalar(ScalarType::Int) => Value::Int(0),
            ValueType::Scalar(ScalarType::Float) => Value::Float(Float::zero()),
            ValueType::ListOf(ScalarType::String) => {
                let items: Vec<Vec<u8>> = Vec::new();
                assert(models(items@) =~= Seq::<ScalarModel>::empty());
                Value::ListString(items)
            },
            ValueType::ListOf(ScalarType::Int) => {
                let items: Vec<i64> = Vec::new();
                assert(models(items@) =~= Seq::<ScalarModel>::empty());
                Value::ListInt(items)
            },
            ValueType::ListOf(ScalarType::Float) => {
                let items: Vec<Float> = Vec::new();
                assert(models(items@) =~= Seq::<ScalarModel>::empty());
                Value::ListFloat(items)
            },
            ValueType::SetOf(ScalarType::String) => {
                let items: SortedSet<Vec<u8>> = SortedSet::new();
                assert(items.members() =~= Set::<ScalarModel>::empty());
                Value::SetString(items)
            },
            ValueType::SetOf(ScalarType::Int) => {
                let items: SortedSet<i64> = SortedSet::new();
                assert(items.members() =~= Set::<ScalarModel>::empty());
                Value::SetInt(items)
            },
            ValueType::SetOf(ScalarType::Float) => {
                let items: SortedSet<Float> = SortedSet::new();
                assert(items.members() =~= Set::<ScalarModel>::empty());
                Value::SetFloat(items)
            },
            ValueType::MapOf(ScalarType::String, ScalarType::String) => Value::MapStringString(SortedMap::new()),
            ValueType::MapOf(ScalarType::String, ScalarType::Int) => Value::MapStringInt(SortedMap::new()),
            ValueType::MapOf(ScalarType::String, ScalarType::Float) => Value::MapStringFloat(SortedMap::new()),
            ValueType::MapOf(ScalarType::Int, ScalarType::String) => Value::MapIntString(SortedMap::new()),
            ValueType::MapOf(ScalarType::Int, ScalarType::Int) => Value::MapIntInt(SortedMap::new()),
            ValueType::MapOf(ScalarType::Int, ScalarType::Float) => Value::MapIntFloat(SortedMap::new()),
            ValueType::MapOf(ScalarType::Float, ScalarType::String) => Value::MapFloatString(SortedMap::new()),
            ValueType::MapOf(ScalarType::Float, ScalarType::Int) => Value::MapFloatInt(SortedMap::new()),
            ValueType::MapOf(ScalarType::Float, ScalarType::Float) => Value::MapFloatFloat(SortedMap::new()),
        }
    }

    /// The size that the length operators compare, where the value has one.
    pub fn length(&self) -> (r: Option<usize>)
        ensures
            r.is_some() == self@.length().is_some(),
            r matches Some(n) ==> self@.length() == Some(n as nat),
    {
        match self {
            Value::String(x) => Some(x.len()),
            Value::Int(_) => None,
            Value::Float(_) => None,
            Value::ListString(x) => Some(x.len()),
            Value::ListInt(x) => Some(x.len()),
            Value::ListFloat(x) => Some(x.len()),
            Value::SetString(x) => Some(x.len()),
            Value::SetInt(x) => Some(x.len()),
            Value::SetFloat(x) => Some(x.len()),
            Value::MapStringString(x) => Some(x.len()),
            Value::MapStringInt(x) => Some(x.len()),
            Value::MapStringFloat(x) => Some(x.len()),
            Value::MapIntString(x) => Some(x.len()),
            Value::MapIntInt(x) => Some(x.len()),
            Value::MapIntFloat(x) => Some(x.len()),
            Value::MapFloatString(x) => Some(x.len()),
            Value::MapFloatInt(x) => Some(x.len()),
            Value::MapFloatFloat(x) => Some(x.len()),
        }
    }

    /// A copy with the same content.
    pub fn dup(&self) -> (r: Value)
        ensures
            r@ == self@,
    {
        match self {
            Value::String(x) => Value::String(x.dup()),
            Value::Int(x) => Value::Int(x.dup()),
            Value::Float(x) => Value::Float(x.dup()),
            Value::ListString(x) => Value::ListString(dup_all(x)),
            Value::ListInt(x) => Value::ListInt(dup_all(x)),
            Value::ListFloat(x) => Value::ListFloat(dup_all(x)),
            Value::SetString(x) => Value::SetString(x.dup()),
            Value::SetInt(x) => Value::SetInt(x.dup()),
            Value::SetFloat(x) => Value::SetFloat(x.dup()),
            Value::MapStringString(x) => Value::MapStringString(x.dup()),
            Value::MapStringInt(x) => Value::MapStringInt(x.dup()),
            Value::MapStringFloat(x) => Value::MapStringFloat(x.dup()),
            Value::MapIntString(x) => Value::MapIntString(x.dup()),
            Value::MapIntInt(x) => Value::MapIntInt(x.dup()),
            Value::MapIntFloat(x) => Value::MapIntFloat(x.dup()),
            Value::MapFloatString(x) => Value::MapFloatString(x.dup()),
            Value::MapFloatInt(x) => Value::MapFloatInt(x.dup()),
            Value::MapFloatFloat(x) => Value::MapFloatFloat(x.dup()),
        }
    }

    /// Equality of two values of one type: lists as sequences, sets and maps
    /// whatever the order their entries were given in. Values of different
    /// types are not compared: that is an `InvalidArgument`.
    pub fn same(&self, other: &Value) -> (r: Result<bool, Error>)
        ensures
            self@.value_type() != other@.value_type() ==> r == Err::<bool, Error>(
                Error::InvalidArgument,
            ),
            self@.value_type() == other@.value_type() ==> r == Ok::<bool, Error>(
                self@ == other@,
            ),
    {
        match (self, other) {
            (Value::String(x), Value::String(y)) => Ok(x.same(y)),
            (Value::Int(x), Value::Int(y)) => Ok(x.same(y)),
            (Value::Float(x), Value::Float(y)) => Ok(x.same(y)),
            (Value::ListString(x), Value::ListString(y)) => Ok(same_all(x, y)),
            (Value::ListInt(x), Value::ListInt(y)) => Ok(same_all(x, y)),
            (Value::ListFloat(x), Value::ListFloat(y)) => Ok(same_all(x, y)),
            (Value::SetString(x), Value::SetString(y)) => Ok(x.same(y)),
            (Value::SetInt(x), Value::SetInt(y)) => Ok(x.same(y)),
            (Value::SetFloat(x), Value::SetFloat(y)) => Ok(x.same(y)),
            (Value::MapStringString(x), Value::MapStringString(y)) => Ok(x.same(y)),
            (Value::MapStringInt(x), Value::MapStringInt(y)) => Ok(x.same(y)),
            (Value::MapStringFloat(x), Value::MapStringFloat(y)) => Ok(x.same(y)),
            (Value::MapIntString(x), Value::MapIntString(y)) => Ok(x.same(y)),
            (Value::MapIntInt(x), Value::MapIntInt(y)) => Ok(x.same(y)),
            (Value::MapIntFloat(x), Value::MapIntFloat(y)) => Ok(x.same(y)),
            (Value::MapFloatString(x), Value::MapFloatString(y)) => Ok(x.same(y)),
            (Value::MapFloatInt(x), Value::MapFloatInt(y)) => Ok(x.same(y)),
            (Value::MapFloatFloat(x), Value::MapFloatFloat(y)) => Ok(x.same(y)),
            _ => Err(Error::InvalidArgument),
        }
    }

    /// Whether `self` sorts strictly before `other`: numbers numerically,
    /// strings lexicographically by byte value. Collections have no order,
    /// and values of different types are not compared: both are an
    /// `InvalidArgument`.
    pub fn less(&self, other: &Value) -> (r: Result<bool, Error>)
        ensures
            r == ordered_before(self@, other@),
    {
        match (self, other) {
            (Value::String(x), Value::String(y)) => Ok(x.less(y)),
            (Value::Int(x), Value::Int(y)) => Ok(x.less(y)),
            (Value::Float(x), Value::Float(y)) => Ok(x.less(y)),
            _ => Err(Error::InvalidArgument),
        }
    }

    /// Equality that accepts two empty collections of one shape as equal
    /// whatever their element types; see [`loosely_equal`].
    pub fn loosely_same(&self, other: &Value) -> (r: bool)
        ensures
            r == loosely_equal(self@, other@),
    {
        match self.same(other) {
            Ok(b) => {
                if b {
                    true
                } else {
                    self.is_empty_collection() && other.is_empty_collection()
                }
            },
            Err(_) => {
                self.shape() == other.shape() && self.is_empty_collection()
                    && other.is_empty_collection()
            },
        }
    }

    /// Whether the value is a collection without elements.
    pub fn is_empty_collection(&self) -> (r: bool)
        ensures
            r == self@.is_empty_collection(),
    {
        match self {
            Value::String(_) => false,
            Value::Int(_) => false,
            Value::Float(_) => false,
            _ => {
                match self.length() {
                    Some(n) => n == 0,
                    None => false,
                }
            },
        }
    }

    /// 0 for a scalar, 1 for a list, 2 for a set, 3 for a map.
    fn shape(&self) -> (r: u8)
        ensures
            r == shape_of(self@),
    {
        match self.value_type() {
            ValueType::Scalar(_) => 0,
            ValueType::ListOf(_) => 1,
            ValueType::SetOf(_) => 2,
            ValueType::MapOf(_, _) => 3,
        }
    }
}

/// 0 for a scalar, 1 for a list, 2 for a set, 3 for a map.
pub open spec fn shape_of(m: ValueModel) -> int {
    match m {
        ValueModel::Scalar(_) => 0,
        ValueModel::ListOf(_, _) => 1,
        ValueModel::SetOf(_, _) => 2,
        ValueModel::MapOf(_, _, _) => 3,
    }
}

/// What the relational operators decide: the order of two scalars of one
/// type, and `InvalidArgument` for everything else.
pub open spec fn ordered_before(a: ValueModel, b: ValueModel) -> Result<bool, Error> {
    match (a, b) {
        (ValueModel::Scalar(x), ValueModel::Scalar(y)) => {
            if x.scalar_type() == y.scalar_type() {
                Ok(model_lt(x, y))
            } else {
                Err(Error::InvalidArgument)
            }
        },
        _ => Err(Error::InvalidArgument),
    }
}

} // verus!
