//! The three base types (byte strings, 64-bit integers, doubles) and the
//! total order that each of them carries.

use vstd::prelude::*;

verus! {

/// The base type of a scalar or of a collection's elements.
#[derive(Clone, Copy, Debug, PartialEq, Eq, Structural)]
pub enum ScalarType {
    String,
    Int,
    Float,
}

/// The mathematical value of a scalar. A double is stood for by its order
/// key (see [`float_key`]).
pub enum ScalarModel {
    String(Seq<u8>),
    Int(int),
    Float(int),
}

impl ScalarModel {
    pub open spec fn scalar_type(self) -> ScalarType {
        match self {
            ScalarModel::String(_) => ScalarType::String,
            ScalarModel::Int(_) => ScalarType::Int,
            ScalarModel::Float(_) => ScalarType::Float,
        }
    }
}

/// The sign bit of a double, which is also the number of magnitudes.
pub const SIGN_BIT: u64 = 0x8000_0000_0000_0000;

/// The magnitude of positive infinity. Larger magnitudes are NaNs.
pub const INFINITY_MAGNITUDE: u64 = 0x7FF0_0000_0000_0000;

/// The bits of a double without its sign.
pub open spec fn float_magnitude(bits: u64) -> int {
    bits as int % (SIGN_BIT as int)
}

/// Whether the bit pattern is a NaN, which has no place in the numeric order.
pub open spec fn float_is_nan(bits: u64) -> bool {
    float_magnitude(bits) > INFINITY_MAGNITUDE as int
}

/// The integer by which a double is ordered: its magnitude, negated when the
/// sign bit is set. On patterns that are not NaN, `float_key(a) <
/// float_key(b)` is numeric `a < b`, and both zeros have key 0.
pub open spec fn float_key(bits: u64) -> int {
    if bits >= SIGN_BIT {
        -float_magnitude(bits)
    } else {
        float_magnitude(bits)
    }
}

/// An IEEE-754 double that is not a NaN, held as its bit pattern.
#[derive(Clone, Copy, Debug)]
pub struct Float {
    bits: u64,
}

impl Float {
    #[verifier::type_invariant]
    spec fn not_nan(self) -> bool {
        !float_is_nan(self.bits)
    }

    /// The bit pattern.
    pub closed spec fn bits(self) -> u64 {
        self.bits
    }

    /// The order key.
    pub open spec fn key(self) -> int {
        float_key(self.bits())
    }

    /// Accepts every bit pattern but the NaNs.
    pub fn from_bits(bits: u64) -> (r: Option<Float>)
        ensures
            r.is_some() == !float_is_nan(bits),
            r matches Some(f) ==> f.bits() == bits,
    {
        if bits % SIGN_BIT > INFINITY_MAGNITUDE {
            None
        } else {
            Some(Float { bits })
        }
    }

    /// Positive zero.
    pub fn zero() -> (r: Float)
        ensures
            r.bits() == 0,
            r.key() == 0,
    {
        Float { bits: 0 }
    }

    /// The bit pattern that the value was made from.
    pub fn to_bits(&self) -> (r: u64)
        ensures
            r == self.bits(),
            !float_is_nan(r),
    {
        proof {
            use_type_invariant(self);
        }
        self.bits
    }

    /// The order key as a machine integer.
    pub fn order_key(&self) -> (r: i64)
        ensures
            r == self.key(),
    {
        let magnitude: u64 = self.bits % SIGN_BIT;
        if self.bits >= SIGN_BIT {
            -(magnitude as i64)
        } else {
            magnitude as i64
        }
    }
}

/// Lexicographic order by byte value, decided from position `from` on.
pub open spec fn bytes_lt_from(a: Seq<u8>, b: Seq<u8>, from: int) -> bool
    decreases a.len() - from,
{
    if from >= b.len() {
        false
    } else if from >= a.len() {
        true
    } else if a[from] != b[from] {
        a[from] < b[from]
    } else {
        bytes_lt_from(a, b, from + 1)
    }
}

/// Lexicographic order on byte strings: a proper prefix sorts first, and
/// otherwise the first differing byte decides.
pub open spec fn bytes_lt(a: Seq<u8>, b: Seq<u8>) -> bool {
    bytes_lt_from(a, b, 0)
}

pub proof fn lemma_bytes_lt_irreflexive(a: Seq<u8>, from: int)
    requires
        0 <= from,
    ensures
        !bytes_lt_from(a, a, from),
    decreases a.len() - from,
{
    if from < a.len() {
        lemma_bytes_lt_irreflexive(a, from + 1);
    }
}

pub proof fn lemma_bytes_lt_transitive(a: Seq<u8>, b: Seq<u8>, c: Seq<u8>, from: int)
    requires
        0 <= from,
        bytes_lt_from(a, b, from),
        bytes_lt_from(b, c, from),
    ensures
        bytes_lt_from(a, c, from),
    decreases a.len() - from,
{
    if from < a.len() && a[from] == b[from] && b[from] == c[from] {
        lemma_bytes_lt_transitive(a, b, c, from + 1);
    }
}

pub proof fn lemma_bytes_lt_total(a: Seq<u8>, b: Seq<u8>, from: int)
    requires
        0 <= from <= a.len(),
        from <= b.len(),
        forall|k: int| 0 <= k < from ==> a[k] == b[k],
        !bytes_lt_from(a, b, from),
        !bytes_lt_from(b, a, from),
    ensures
        a == b,
    decreases a.len() - from,
{
    if from < a.len() {
        lemma_bytes_lt_total(a, b, from + 1);
    } else {
        assert(a =~= b);
    }
}

/// The rank of a base type, which orders scalars of different types.
pub open spec fn type_rank(t: ScalarType) -> int {
    match t {
        ScalarType::String => 0,
        ScalarType::Int => 1,
        ScalarType::Float => 2,
    }
}

/// The strict total order on scalars: within a type, byte strings order
/// lexicographically and numbers numerically; across types, by rank.
pub open spec fn model_lt(a: ScalarModel, b: ScalarModel) -> bool {
    match (a, b) {
        (ScalarModel::String(x), ScalarModel::String(y)) => bytes_lt(x, y),
        (ScalarModel::Int(x), ScalarModel::Int(y)) => x < y,
        (ScalarModel::Float(x), ScalarModel::Float(y)) => x < y,
        _ => type_rank(a.scalar_type()) < type_rank(b.scalar_type()),
    }
}

/// No scalar sorts before itself.
pub proof fn lemma_model_lt_irreflexive(a: ScalarModel)
    ensures
        !model_lt(a, a),
{
    if let ScalarModel::String(x) = a {
        lemma_bytes_lt_irreflexive(x, 0);
    }
}

/// The order on scalars is transitive.
pub proof fn lemma_model_lt_transitive(a: ScalarModel, b: ScalarModel, c: ScalarModel)
    requires
        model_lt(a, b),
        model_lt(b, c),
    ensures
        model_lt(a, c),
{
    match (a, b, c) {
        (ScalarModel::String(x), ScalarModel::String(y), ScalarModel::String(z)) => {
            lemma_bytes_lt_transitive(x, y, z, 0);
        },
        _ => {},
    }
}

/// Two different scalars are ordered one way or the other.
pub proof fn lemma_model_lt_total(a: ScalarModel, b: ScalarModel)
    ensures
        a == b || model_lt(a, b) || model_lt(b, a),
{
    match (a, b) {
        (ScalarModel::String(x), ScalarModel::String(y)) => {
            if !bytes_lt(x, y) && !bytes_lt(y, x) {
                lemma_bytes_lt_total(x, y, 0);
            }
        },
        _ => {},
    }
}

/// No two scalars are ordered both ways.
pub proof fn lemma_model_lt_asymmetric(a: ScalarModel, b: ScalarModel)
    requires
        model_lt(a, b),
    ensures
        !model_lt(b, a),
{
    if model_lt(b, a) {
        lemma_model_lt_transitive(a, b, a);
        lemma_model_lt_irreflexive(a);
    }
}

/// A base type as it is held in memory.
pub trait Scalar: Sized {
    /// The mathematical value.
    spec fn model(&self) -> ScalarModel;

    /// The base type that every value of the implementing type has.
    spec fn base_type() -> ScalarType;

    proof fn lemma_model_type(&self)
        ensures
            self.model().scalar_type() == Self::base_type(),
    ;

    /// Equality of the mathematical values.
    fn same(&self, other: &Self) -> (r: bool)
        ensures
            r == (self.model() == other.model()),
    ;

    /// Whether `self` sorts strictly before `other`.
    fn less(&self, other: &Self) -> (r: bool)
        ensures
            r == model_lt(self.model(), other.model()),
    ;

    /// A copy with the same mathematical value.
    fn dup(&self) -> (r: Self)
        ensures
            r.model() == self.model(),
    ;
}

impl Scalar for i64 {
    open spec fn model(&self) -> ScalarModel {
        ScalarModel::Int(*self as int)
    }

    open spec fn base_type() -> ScalarType {
        ScalarType::Int
    }

    proof fn lemma_model_type(&self) {
    }

    fn same(&self, other: &Self) -> (r: bool) {
        *self == *other
    }

    fn less(&self, other: &Self) -> (r: bool) {
        *self < *other
    }

    fn dup(&self) -> (r: Self) {
        *self
    }
}

impl Scalar for Float {
    open spec fn model(&self) -> ScalarModel {
        ScalarModel::Float(self.key())
    }

    open spec fn base_type() -> ScalarType {
        ScalarType::Float
    }

    proof fn lemma_model_type(&self) {
    }

    fn same(&self, other: &Self) -> (r: bool) {
        self.order_key() == other.order_key()
    }

    fn less(&self, other: &Self) -> (r: bool) {
        self.order_key() < other.order_key()
    }

    fn dup(&self) -> (r: Self) {
        *self
    }
}

/// Whether two byte strings hold the same bytes.
pub fn bytes_same(a: &Vec<u8>, b: &Vec<u8>) -> (r: bool)
    ensures
        r == (a@ == b@),
{
    if a.len() != b.len() {
        return false;
    }
    let mut i: usize = 0;
    while i < a.len()
        invariant
            i <= a.len(),
            a.len() == b.len(),
            forall|k: int| 0 <= k < i ==> a@[k] == b@[k],
        decreases a.len() - i,
    {
        if a[i] != b[i] {
            return false;
        }
        i += 1;
    }
    assert(a@ =~= b@);
    true
}

/// Whether `a` sorts before `b` in lexicographic order by byte value.
pub fn bytes_less(a: &Vec<u8>, b: &Vec<u8>) -> (r: bool)
    ensures
        r == bytes_lt(a@, b@),
{
    let mut i: usize = 0;
    while i < a.len() && i < b.len()
        invariant
            i <= a.len(),
            i <= b.len(),
            bytes_lt(a@, b@) == bytes_lt_from(a@, b@, i as int),
        decreases a.len() - i,
    {
        if a[i] != b[i] {
            return a[i] < b[i];
        }
        i += 1;
    }
    i < b.len()
}

/// A copy of a byte string.
pub fn bytes_dup(a: &Vec<u8>) -> (r: Vec<u8>)
    ensures
        r@ == a@,
{
    let mut out: Vec<u8> = Vec::with_capacity(a.len());
    let mut i: usize = 0;
    while i < a.len()
        invariant
            i <= a.len(),
            out@ == a@.take(i as int),
        decreases a.len() - i,
    {
        out.push(a[i]);
        i += 1;
    }
    assert(a@.take(a.len() as int) =~= a@);
    out
}

impl Scalar for Vec<u8> {
    open spec fn model(&self) -> ScalarModel {
        ScalarModel::String(self@)
    }

    open spec fn base_type() -> ScalarType {
        ScalarType::String
    }

    proof fn lemma_model_type(&self) {
    }

    fn same(&self, other: &Self) -> (r: bool) {
        bytes_same(self, other)
    }

    fn less(&self, other: &Self) -> (r: bool) {
        bytes_less(self, other)
    }

    fn dup(&self) -> (r: Self) {
        bytes_dup(self)
    }
}

} // verus!
