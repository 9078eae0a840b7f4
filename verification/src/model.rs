//! The mathematical model of a term: its kind, and a byte string or a number for each value.

use vstd::prelude::*;
use crate::bigint::MAX_BIG_BYTES;
use crate::endian::bit_length;
use crate::endian::le_minimal;
use crate::endian::magnitude;
use crate::endian::truncating_quotient;

verus! {

/// Bytes of an empty container: three machine words of eight bytes.
pub const EMPTY_VEC_HEAP_SIZE: usize = 3 * WORD_SIZE;

/// Bytes of one machine word.
pub const WORD_SIZE: usize = 8;

/// The fifteen kinds of scalar. A term is a scalar of one kind or an array of scalars of
/// one kind.
#[derive(Clone, Copy, Debug, PartialEq, Eq, Structural)]
pub enum Kind {
    Hash160,
    Hash256,
    Hash512,
    Unsigned8,
    Unsigned16,
    Unsigned32,
    Unsigned64,
    Unsigned128,
    UnsignedBig,
    Signed8,
    Signed16,
    Signed32,
    Signed64,
    Signed128,
    SignedBig,
}

impl Kind {
    /// A hash of fixed length.
    pub open spec fn is_hash(self) -> bool {
        self is Hash160 || self is Hash256 || self is Hash512
    }

    /// An integer of any size.
    pub open spec fn is_big(self) -> bool {
        self is UnsignedBig || self is SignedBig
    }

    /// An integer, of fixed width or of any size.
    pub open spec fn is_numeric(self) -> bool {
        !self.is_hash()
    }

    /// The number of bytes of a value of fixed width; zero for the integers of any size.
    pub open spec fn width(self) -> nat {
        match self {
            Kind::Hash160 => 20,
            Kind::Hash256 => 32,
            Kind::Hash512 => 64,
            Kind::Unsigned8 | Kind::Signed8 => 1,
            Kind::Unsigned16 | Kind::Signed16 => 2,
            Kind::Unsigned32 | Kind::Signed32 => 4,
            Kind::Unsigned64 | Kind::Signed64 => 8,
            Kind::Unsigned128 | Kind::Signed128 => 16,
            Kind::UnsignedBig | Kind::SignedBig => 0,
        }
    }

    /// An integer kind that has numbers below zero.
    pub open spec fn is_signed(self) -> bool {
        match self {
            Kind::Signed8
            | Kind::Signed16
            | Kind::Signed32
            | Kind::Signed64
            | Kind::Signed128
            | Kind::SignedBig => true,
            _ => false,
        }
    }

    /// Whether `v` is a number of this kind.
    pub open spec fn contains(self, v: int) -> bool {
        match self {
            Kind::Hash160 | Kind::Hash256 | Kind::Hash512 => false,
            Kind::Unsigned8 => u8::MIN <= v <= u8::MAX,
            Kind::Unsigned16 => u16::MIN <= v <= u16::MAX,
            Kind::Unsigned32 => u32::MIN <= v <= u32::MAX,
            Kind::Unsigned64 => u64::MIN <= v <= u64::MAX,
            Kind::Unsigned128 => u128::MIN <= v <= u128::MAX,
            Kind::UnsignedBig => 0 <= v,
            Kind::Signed8 => i8::MIN <= v <= i8::MAX,
            Kind::Signed16 => i16::MIN <= v <= i16::MAX,
            Kind::Signed32 => i32::MIN <= v <= i32::MAX,
            Kind::Signed64 => i64::MIN <= v <= i64::MAX,
            Kind::Signed128 => i128::MIN <= v <= i128::MAX,
            Kind::SignedBig => true,
        }
    }
}

/// A calculation on two numbers.
#[derive(Clone, Copy, Debug, PartialEq, Eq, Structural)]
pub enum Arith {
    Add,
    Sub,
    Mul,
    Div,
    Min,
    Max,
}

impl Arith {
    /// The result of the calculation; none where the divisor is zero. A quotient is
    /// rounded towards zero.
    pub open spec fn apply(self, a: int, b: int) -> Option<int> {
        match self {
            Arith::Add => Some(a + b),
            Arith::Sub => Some(a - b),
            Arith::Mul => Some(a * b),
            Arith::Div => if b == 0 {
                None
            } else {
                Some(truncating_quotient(a, b))
            },
            Arith::Min => Some(if a < b {
                a
            } else {
                b
            }),
            Arith::Max => Some(if a < b {
                b
            } else {
                a
            }),
        }
    }

    /// A calculation that makes a new number, other than the choice of one of the two.
    pub open spec fn calculates(self) -> bool {
        !(self is Min || self is Max)
    }
}

/// A comparison of two terms.
#[derive(Clone, Copy, Debug, PartialEq, Eq, Structural)]
pub enum Relation {
    Eq,
    Neq,
    Lt,
    Gt,
    Leq,
    Geq,
}

/// What a scalar holds: the bytes of a hash, or the number of an integer.
pub enum Value {
    Bytes(Seq<u8>),
    Number(int),
}

impl Value {
    /// Whether this is a value of `kind`: a hash of the kind's length, or a number in the
    /// kind's range.
    pub open spec fn fits(self, kind: Kind) -> bool {
        match self {
            Value::Bytes(bytes) => kind.is_hash() && bytes.len() == kind.width(),
            Value::Number(v) => kind.contains(v),
        }
    }

    /// The virtual size in bytes of this value as a scalar of `kind`: the width of a value
    /// of fixed width; for an integer of any size the bytes of its magnitude and an empty
    /// container, and one word more for the sign where the kind has one.
    pub open spec fn size(self, kind: Kind) -> nat {
        match self {
            Value::Bytes(_) => kind.width(),
            Value::Number(v) => match kind {
                Kind::UnsignedBig => byte_length(magnitude(v)) + EMPTY_VEC_HEAP_SIZE as nat,
                Kind::SignedBig => byte_length(magnitude(v)) + EMPTY_VEC_HEAP_SIZE as nat
                    + WORD_SIZE as nat,
                _ => kind.width(),
            },
        }
    }
}

/// The number of bytes that the binary digits of `n` take: the bit length over eight,
/// rounded up.
pub open spec fn byte_length(n: nat) -> nat {
    (bit_length(n) + 7) / 8
}

/// The virtual sizes of `elements` as scalars of `kind`, added up.
pub open spec fn elements_size(kind: Kind, elements: Seq<Value>) -> nat
    decreases elements.len(),
{
    if elements.len() == 0 {
        0
    } else {
        elements_size(kind, elements.drop_last()) + elements.last().size(kind)
    }
}

/// The sizes of a sequence with one more element are those of the sequence and that of
/// the element; the sizes of a part of a sequence are no more than those of the whole.
pub proof fn lemma_elements_size_take(kind: Kind, elements: Seq<Value>, i: int)
    requires
        0 <= i < elements.len(),
    ensures
        elements_size(kind, elements.take(i + 1)) == elements_size(kind, elements.take(i))
            + elements[i].size(kind),
        elements_size(kind, elements.take(i + 1)) <= elements_size(kind, elements),
    decreases elements.len() - i,
{
    assert(elements.take(i + 1).drop_last() =~= elements.take(i));
    if i + 1 < elements.len() {
        lemma_elements_size_take(kind, elements, i + 1);
    } else {
        assert(elements.take(i + 1) =~= elements);
    }
}

/// Elements of fixed width take their width each.
pub proof fn lemma_fixed_elements_size(kind: Kind, elements: Seq<Value>)
    requires
        !kind.is_big(),
    ensures
        elements_size(kind, elements) == elements.len() * kind.width(),
    decreases elements.len(),
{
    if elements.len() > 0 {
        lemma_fixed_elements_size(kind, elements.drop_last());
        assert(elements.len() * kind.width() == (elements.len() - 1) * kind.width() + kind.width())
            by (nonlinear_arith);
    }
}

/// A term as mathematics sees it.
pub enum TermModel {
    /// One value of a kind.
    Scalar(Kind, Value),
    /// Values of one kind, in order.
    Array(Kind, Seq<Value>),
}

impl TermModel {
    /// The kind of the scalar, or of the elements of the array.
    pub open spec fn kind(self) -> Kind {
        match self {
            TermModel::Scalar(kind, _) => kind,
            TermModel::Array(kind, _) => kind,
        }
    }

    /// Every value in the term is a value of the term's kind.
    pub open spec fn well_formed(self) -> bool {
        match self {
            TermModel::Scalar(kind, value) => value.fits(kind),
            TermModel::Array(kind, elements) => forall|i: int|
                0 <= i < elements.len() ==> (#[trigger] elements[i]).fits(kind),
        }
    }

    /// The virtual size in bytes: that of the value for a scalar; for an array an empty
    /// container and the sizes of the elements.
    pub open spec fn virtual_size(self) -> nat {
        match self {
            TermModel::Scalar(kind, value) => value.size(kind),
            TermModel::Array(kind, elements) => EMPTY_VEC_HEAP_SIZE as nat + elements_size(
                kind,
                elements,
            ),
        }
    }

    /// An integer scalar that holds the number one.
    pub open spec fn is_one(self) -> bool {
        self matches TermModel::Scalar(kind, Value::Number(v)) && kind.is_numeric() && v == 1
    }

    /// Whether the two terms have one shape: scalars of one kind, or arrays of one kind.
    pub open spec fn same_shape(self, other: TermModel) -> bool {
        self.kind() == other.kind() && (self is Array) == (other is Array)
    }

    /// The number of an integer scalar.
    pub open spec fn number(self) -> Option<int> {
        match self {
            TermModel::Scalar(kind, Value::Number(v)) => if kind.is_numeric() {
                Some(v)
            } else {
                None
            },
            _ => None,
        }
    }

    /// Whether an integer of any size is short enough to take part in arithmetic. Every
    /// other term is.
    pub open spec fn is_arithmetic(self) -> bool {
        match self {
            TermModel::Scalar(kind, Value::Number(v)) => kind.is_big() ==> le_minimal(
                magnitude(v),
            ).len() <= MAX_BIG_BYTES,
            _ => true,
        }
    }

    /// The result of a calculation on two integer scalars of one kind, where there is a
    /// result and it is a number of that kind. Integers of any size that take part in a
    /// sum, a difference, a product or a quotient are short enough for arithmetic.
    pub open spec fn combined(self, op: Arith, other: TermModel) -> Option<TermModel> {
        match (self.number(), other.number()) {
            (Some(a), Some(b)) => if self.kind() != other.kind() {
                None
            } else if op.calculates() && !(self.is_arithmetic() && other.is_arithmetic()) {
                None
            } else {
                match op.apply(a, b) {
                    Some(result) => if self.kind().contains(result) {
                        Some(TermModel::Scalar(self.kind(), Value::Number(result)))
                    } else {
                        None
                    },
                    None => None,
                }
            },
            _ => None,
        }
    }

    /// Whether two terms of one shape are equal; none for terms of two shapes.
    pub open spec fn same(self, other: TermModel) -> Option<bool> {
        if self.same_shape(other) {
            Some(self == other)
        } else {
            None
        }
    }

    /// Whether the number of an integer scalar is below that of another of its kind; none
    /// for any other two terms.
    pub open spec fn below(self, other: TermModel) -> Option<bool> {
        match (self.number(), other.number()) {
            (Some(a), Some(b)) => if self.kind() == other.kind() {
                Some(a < b)
            } else {
                None
            },
            _ => None,
        }
    }

    /// Whether the relation holds of the two terms: equality of terms of one shape, order
    /// of integer scalars of one kind. None for terms that cannot be compared so.
    pub open spec fn related(self, relation: Relation, other: TermModel) -> Option<bool> {
        match relation {
            Relation::Eq => self.same(other),
            Relation::Neq => match self.same(other) {
                Some(equal) => Some(!equal),
                None => None,
            },
            Relation::Lt => self.below(other),
            Relation::Gt => other.below(self),
            Relation::Leq => match other.below(self) {
                Some(above) => Some(!above),
                None => None,
            },
            Relation::Geq => match self.below(other) {
                Some(below) => Some(!below),
                None => None,
            },
        }
    }

    /// The number of an integer scalar as an integer scalar of the kind `target`, where it
    /// is a number of that kind. A hash and an array cannot be cast, and nothing can be
    /// cast to a hash.
    pub open spec fn cast(self, target: Kind) -> Option<TermModel> {
        match self.number() {
            Some(v) => if target.contains(v) {
                Some(TermModel::Scalar(target, Value::Number(v)))
            } else {
                None
            },
            None => None,
        }
    }

    /// Two arrays of one kind, one after the other; none for any other two terms.
    pub open spec fn joined(self, other: TermModel) -> Option<TermModel> {
        match (self, other) {
            (TermModel::Array(kind, front), TermModel::Array(other_kind, back)) => if kind
                == other_kind {
                Some(TermModel::Array(kind, front + back))
            } else {
                None
            },
            _ => None,
        }
    }

    /// The `count` elements of an array from the element `from` on; none for a scalar and
    /// where the array has no such elements.
    pub open spec fn part(self, from: nat, count: nat) -> Option<TermModel> {
        match self {
            TermModel::Array(kind, elements) => if from + count <= elements.len() {
                Some(TermModel::Array(kind, elements.subrange(from as int, (from + count) as int)))
            } else {
                None
            },
            _ => None,
        }
    }

    /// The term with `delta` added to its number, where the term is an integer scalar
    /// and the sum is a number of its kind.
    pub open spec fn shifted(self, delta: int) -> Option<TermModel> {
        match self {
            TermModel::Scalar(kind, Value::Number(v)) => if kind.contains(v + delta) {
                Some(TermModel::Scalar(kind, Value::Number(v + delta)))
            } else {
                None
            },
            _ => None,
        }
    }
}

} // verus!
