//! Calculations and comparisons on terms. No term is ever cast to another kind on the way:
//! two terms of two kinds have no sum and no order.

use vstd::prelude::*;
use crate::bigint::BigSigned;
use crate::bigint::BigUnsigned;
use crate::fixed::number_values;
use crate::fixed::FixedInt;
use crate::model::Arith;
use crate::model::Kind;
use crate::model::Relation;
use crate::model::TermModel;
use crate::model::Value;
use crate::term::hash_values;
use crate::term::signed_big_values;
use crate::term::unsigned_big_values;
use crate::term::VmTerm;

verus! {

/// The result of a calculation on two integers of one fixed width.
fn calculate_fixed<T: FixedInt>(a: T, op: Arith, b: T) -> (res: Option<T>)
    ensures
        match res {
            Some(result) => TermModel::Scalar(T::kind(), Value::Number(a.number())).combined(
                op,
                TermModel::Scalar(T::kind(), Value::Number(b.number())),
            ) == Some(TermModel::Scalar(T::kind(), Value::Number(result.number()))),
            None => TermModel::Scalar(T::kind(), Value::Number(a.number())).combined(
                op,
                TermModel::Scalar(T::kind(), Value::Number(b.number())),
            ) is None,
        },
{
    proof {
        T::lemma_kind();
    }
    match a.calculate(op, b) {
        Some(result) => {
            proof {
                result.lemma_number();
            }
            Some(result)
        },
        None => None,
    }
}

/// The result of a calculation on two unsigned integers of any size.
fn calculate_unsigned_big(a: &BigUnsigned, op: Arith, b: &BigUnsigned) -> (res: Option<
    BigUnsigned,
>)
    ensures
        match res {
            Some(result) => TermModel::Scalar(Kind::UnsignedBig, Value::Number(a@ as int)).combined(
                op,
                TermModel::Scalar(Kind::UnsignedBig, Value::Number(b@ as int)),
            ) == Some(TermModel::Scalar(Kind::UnsignedBig, Value::Number(result@ as int))),
            None => TermModel::Scalar(Kind::UnsignedBig, Value::Number(a@ as int)).combined(
                op,
                TermModel::Scalar(Kind::UnsignedBig, Value::Number(b@ as int)),
            ) is None,
        },
{
    match op {
        Arith::Min => Some(if a.less_than(b) {
            a.clone()
        } else {
            b.clone()
        }),
        Arith::Max => Some(if a.less_than(b) {
            b.clone()
        } else {
            a.clone()
        }),
        _ => {
            if !(a.fits_arithmetic() && b.fits_arithmetic()) {
                return None;
            }
            match op {
                Arith::Add => Some(a.plus(b)),
                Arith::Sub => if a.less_than(b) {
                    None
                } else {
                    Some(a.minus(b))
                },
                Arith::Mul => {
                    proof {
                        assert(a@ * b@ >= 0) by (nonlinear_arith)
                            requires
                                a@ >= 0,
                                b@ >= 0,
                        ;
                    }
                    Some(a.times(b))
                },
                _ => if b.is_zero() {
                    None
                } else {
                    Some(a.quotient(b))
                },
            }
        },
    }
}

/// The result of a calculation on two signed integers of any size.
fn calculate_signed_big(a: &BigSigned, op: Arith, b: &BigSigned) -> (res: Option<BigSigned>)
    ensures
        match res {
            Some(result) => TermModel::Scalar(Kind::SignedBig, Value::Number(a@)).combined(
                op,
                TermModel::Scalar(Kind::SignedBig, Value::Number(b@)),
            ) == Some(TermModel::Scalar(Kind::SignedBig, Value::Number(result@))),
            None => TermModel::Scalar(Kind::SignedBig, Value::Number(a@)).combined(
                op,
                TermModel::Scalar(Kind::SignedBig, Value::Number(b@)),
            ) is None,
        },
{
    match op {
        Arith::Min => Some(if a.less_than(b) {
            a.clone()
        } else {
            b.clone()
        }),
        Arith::Max => Some(if a.less_than(b) {
            b.clone()
        } else {
            a.clone()
        }),
        _ => {
            if !(a.fits_arithmetic() && b.fits_arithmetic()) {
                return None;
            }
            match op {
                Arith::Add => Some(a.plus(b)),
                Arith::Sub => Some(a.minus(b)),
                Arith::Mul => Some(a.times(b)),
                _ => if b.is_zero() {
                    None
                } else {
                    Some(a.quotient(b))
                },
            }
        },
    }
}

/// Whether two hashes are equal.
fn hashes_equal<const N: usize>(a: &[u8; N], b: &[u8; N]) -> (equal: bool)
    ensures
        equal == (a@ == b@),
{
    let mut i: usize = 0;
    while i < N
        invariant
            i <= N,
            forall|j: int| 0 <= j < i ==> a@[j] == b@[j],
        decreases N - i,
    {
        if a[i] != b[i] {
            return false;
        }
        i += 1;
    }
    assert(a@ =~= b@);
    true
}

/// Whether two arrays of hashes are equal.
fn hash_arrays_equal<const N: usize>(a: &Vec<[u8; N]>, b: &Vec<[u8; N]>) -> (equal: bool)
    ensures
        equal == (hash_values(a@) == hash_values(b@)),
{
    if a.len() != b.len() {
        assert(hash_values(a@).len() != hash_values(b@).len());
        return false;
    }
    let mut i: usize = 0;
    while i < a.len()
        invariant
            i <= a.len(),
            a.len() == b.len(),
            forall|j: int| 0 <= j < i ==> a@[j]@ == b@[j]@,
        decreases a.len() - i,
    {
        if !hashes_equal(&a[i], &b[i]) {
            assert(hash_values(a@)[i as int] != hash_values(b@)[i as int]);
            return false;
        }
        i += 1;
    }
    assert(hash_values(a@) =~= hash_values(b@));
    true
}

/// Whether two arrays of integers of one fixed width are equal.
fn number_arrays_equal<T: FixedInt>(a: &Vec<T>, b: &Vec<T>) -> (equal: bool)
    ensures
        equal == (number_values(a@) == number_values(b@)),
{
    if a.len() != b.len() {
        assert(number_values(a@).len() != number_values(b@).len());
        return false;
    }
    let mut i: usize = 0;
    while i < a.len()
        invariant
            i <= a.len(),
            a.len() == b.len(),
            forall|j: int| 0 <= j < i ==> a@[j].number() == b@[j].number(),
        decreases a.len() - i,
    {
        if a[i].to_bits() != b[i].to_bits() {
            assert(number_values(a@)[i as int] != number_values(b@)[i as int]);
            return false;
        }
        i += 1;
    }
    assert(number_values(a@) =~= number_values(b@));
    true
}

/// Whether two arrays of unsigned integers of any size are equal.
fn unsigned_big_arrays_equal(a: &Vec<BigUnsigned>, b: &Vec<BigUnsigned>) -> (equal: bool)
    ensures
        equal == (unsigned_big_values(a@) == unsigned_big_values(b@)),
{
    if a.len() != b.len() {
        assert(unsigned_big_values(a@).len() != unsigned_big_values(b@).len());
        return false;
    }
    let mut i: usize = 0;
    while i < a.len()
        invariant
            i <= a.len(),
            a.len() == b.len(),
            forall|j: int| 0 <= j < i ==> a@[j]@ == b@[j]@,
        decreases a.len() - i,
    {
        if !a[i].equals(&b[i]) {
            assert(unsigned_big_values(a@)[i as int] != unsigned_big_values(b@)[i as int]);
            return false;
        }
        i += 1;
    }
    assert(unsigned_big_values(a@) =~= unsigned_big_values(b@));
    true
}

/// Whether two arrays of signed integers of any size are equal.
fn signed_big_arrays_equal(a: &Vec<BigSigned>, b: &Vec<BigSigned>) -> (equal: bool)
    ensures
        equal == (signed_big_values(a@) == signed_big_values(b@)),
{
    if a.len() != b.len() {
        assert(signed_big_values(a@).len() != signed_big_values(b@).len());
        return false;
    }
    let mut i: usize = 0;
    while i < a.len()
        invariant
            i <= a.len(),
            a.len() == b.len(),
            forall|j: int| 0 <= j < i ==> a@[j]@ == b@[j]@,
        decreases a.len() - i,
    {
        if !a[i].equals(&b[i]) {
            assert(signed_big_values(a@)[i as int] != signed_big_values(b@)[i as int]);
            return false;
        }
        i += 1;
    }
    assert(signed_big_values(a@) =~= signed_big_values(b@));
    true
}

impl VmTerm {
    /// The kind of the scalar, or of the elements of the array.
    pub fn kind(&self) -> (kind: Kind)
        ensures
            kind == self@.kind(),
    {
        match self {
            Self::Hash160(_) | Self::Hash160Array(_) => Kind::Hash160,
            Self::Hash256(_) | Self::Hash256Array(_) => Kind::Hash256,
            Self::Hash512(_) | Self::Hash512Array(_) => Kind::Hash512,
            Self::Unsigned8(_) | Self::Unsigned8Array(_) => Kind::Unsigned8,
            Self::Unsigned16(_) | Self::Unsigned16Array(_) => Kind::Unsigned16,
            Self::Unsigned32(_) | Self::Unsigned32Array(_) => Kind::Unsigned32,
            Self::Unsigned64(_) | Self::Unsigned64Array(_) => Kind::Unsigned64,
            Self::Unsigned128(_) | Self::Unsigned128Array(_) => Kind::Unsigned128,
            Self::UnsignedBig(_) | Self::UnsignedBigArray(_) => Kind::UnsignedBig,
            Self::Signed8(_) | Self::Signed8Array(_) => Kind::Signed8,
            Self::Signed16(_) | Self::Signed16Array(_) => Kind::Signed16,
            Self::Signed32(_) | Self::Signed32Array(_) => Kind::Signed32,
            Self::Signed64(_) | Self::Signed64Array(_) => Kind::Signed64,
            Self::Signed128(_) | Self::Signed128Array(_) => Kind::Signed128,
            Self::SignedBig(_) | Self::SignedBigArray(_) => Kind::SignedBig,
        }
    }

    /// Whether the term is an array.
    pub fn is_array(&self) -> (array: bool)
        ensures
            array == (self@ is Array),
    {
        match self {
            Self::Hash160(_)
            | Self::Hash256(_)
            | Self::Hash512(_)
            | Self::Unsigned8(_)
            | Self::Unsigned16(_)
            | Self::Unsigned32(_)
            | Self::Unsigned64(_)
            | Self::Unsigned128(_)
            | Self::UnsignedBig(_)
            | Self::Signed8(_)
            | Self::Signed16(_)
            | Self::Signed32(_)
            | Self::Signed64(_)
            | Self::Signed128(_)
            | Self::SignedBig(_) => false,
            _ => true,
        }
    }

    /// The result of a calculation on this term and `other`, where both are integer
    /// scalars of one kind and the result is a number of that kind. There is none for
    /// terms of two kinds, for a hash or an array, for a result out of the kind's range,
    /// for a division by zero, and for a sum, difference, product or quotient of an
    /// integer of any size that is longer than `MAX_BIG_BYTES`.
    pub fn combine(&self, op: Arith, other: &VmTerm) -> (res: Option<VmTerm>)
        ensures
            match res {
                Some(result) => self@.combined(op, other@) == Some(result@),
                None => self@.combined(op, other@) is None,
            },
    {
        if self.is_array() || other.is_array() || self.kind() != other.kind() {
            return None;
        }
        match (self, other) {
            (Self::Unsigned8(a), Self::Unsigned8(b)) => match calculate_fixed(*a, op, *b) {
                Some(result) => Some(Self::Unsigned8(result)),
                None => None,
            },
            (Self::Unsigned16(a), Self::Unsigned16(b)) => match calculate_fixed(*a, op, *b) {
                Some(result) => Some(Self::Unsigned16(result)),
                None => None,
            },
            (Self::Unsigned32(a), Self::Unsigned32(b)) => match calculate_fixed(*a, op, *b) {
                Some(result) => Some(Self::Unsigned32(result)),
                None => None,
            },
            (Self::Unsigned64(a), Self::Unsigned64(b)) => match calculate_fixed(*a, op, *b) {
                Some(result) => Some(Self::Unsigned64(result)),
                None => None,
            },
            (Self::Unsigned128(a), Self::Unsigned128(b)) => match calculate_fixed(*a, op, *b) {
                Some(result) => Some(Self::Unsigned128(result)),
                None => None,
            },
            (Self::Signed8(a), Self::Signed8(b)) => match calculate_fixed(*a, op, *b) {
                Some(result) => Some(Self::Signed8(result)),
                None => None,
            },
            (Self::Signed16(a), Self::Signed16(b)) => match calculate_fixed(*a, op, *b) {
                Some(result) => Some(Self::Signed16(result)),
                None => None,
            },
            (Self::Signed32(a), Self::Signed32(b)) => match calculate_fixed(*a, op, *b) {
                Some(result) => Some(Self::Signed32(result)),
                None => None,
            },
            (Self::Signed64(a), Self::Signed64(b)) => match calculate_fixed(*a, op, *b) {
                Some(result) => Some(Self::Signed64(result)),
                None => None,
            },
            (Self::Signed128(a), Self::Signed128(b)) => match calculate_fixed(*a, op, *b) {
                Some(result) => Some(Self::Signed128(result)),
                None => None,
            },
            (Self::UnsignedBig(a), Self::UnsignedBig(b)) => match calculate_unsigned_big(a, op, b) {
                Some(result) => Some(Self::UnsignedBig(result)),
                None => None,
            },
            (Self::SignedBig(a), Self::SignedBig(b)) => match calculate_signed_big(a, op, b) {
                Some(result) => Some(Self::SignedBig(result)),
                None => None,
            },
            _ => None,
        }
    }

    /// Whether this term and `other`, two scalars of one kind, are equal.
    fn same_scalar(&self, other: &VmTerm) -> (equal: bool)
        requires
            self@ is Scalar,
            other@ is Scalar,
            self@.kind() == other@.kind(),
        ensures
            equal == (self@ == other@),
    {
        match (self, other) {
            (Self::Hash160(a), Self::Hash160(b)) => hashes_equal(a, b),
            (Self::Hash256(a), Self::Hash256(b)) => hashes_equal(a, b),
            (Self::Hash512(a), Self::Hash512(b)) => hashes_equal(a, b),
            (Self::Unsigned8(a), Self::Unsigned8(b)) => *a == *b,
            (Self::Unsigned16(a), Self::Unsigned16(b)) => *a == *b,
            (Self::Unsigned32(a), Self::Unsigned32(b)) => *a == *b,
            (Self::Unsigned64(a), Self::Unsigned64(b)) => *a == *b,
            (Self::Unsigned128(a), Self::Unsigned128(b)) => *a == *b,
            (Self::Signed8(a), Self::Signed8(b)) => *a == *b,
            (Self::Signed16(a), Self::Signed16(b)) => *a == *b,
            (Self::Signed32(a), Self::Signed32(b)) => *a == *b,
            (Self::Signed64(a), Self::Signed64(b)) => *a == *b,
            (Self::Signed128(a), Self::Signed128(b)) => *a == *b,
            (Self::UnsignedBig(a), Self::UnsignedBig(b)) => a.equals(b),
            (Self::SignedBig(a), Self::SignedBig(b)) => a.equals(b),
            _ => false,
        }
    }

    /// Whether this term and `other`, two arrays of one kind, are equal.
    fn same_array(&self, other: &VmTerm) -> (equal: bool)
        requires
            self@ is Array,
            other@ is Array,
            self@.kind() == other@.kind(),
        ensures
            equal == (self@ == other@),
    {
        match (self, other) {
            (Self::Hash160Array(a), Self::Hash160Array(b)) => hash_arrays_equal(a, b),
            (Self::Hash256Array(a), Self::Hash256Array(b)) => hash_arrays_equal(a, b),
            (Self::Hash512Array(a), Self::Hash512Array(b)) => hash_arrays_equal(a, b),
            (Self::Unsigned8Array(a), Self::Unsigned8Array(b)) => number_arrays_equal(a, b),
            (Self::Unsigned16Array(a), Self::Unsigned16Array(b)) => number_arrays_equal(a, b),
            (Self::Unsigned32Array(a), Self::Unsigned32Array(b)) => number_arrays_equal(a, b),
            (Self::Unsigned64Array(a), Self::Unsigned64Array(b)) => number_arrays_equal(a, b),
            (Self::Unsigned128Array(a), Self::Unsigned128Array(b)) => number_arrays_equal(a, b),
            (Self::Signed8Array(a), Self::Signed8Array(b)) => number_arrays_equal(a, b),
            (Self::Signed16Array(a), Self::Signed16Array(b)) => number_arrays_equal(a, b),
            (Self::Signed32Array(a), Self::Signed32Array(b)) => number_arrays_equal(a, b),
            (Self::Signed64Array(a), Self::Signed64Array(b)) => number_arrays_equal(a, b),
            (Self::Signed128Array(a), Self::Signed128Array(b)) => number_arrays_equal(a, b),
            (Self::UnsignedBigArray(a), Self::UnsignedBigArray(b)) => unsigned_big_arrays_equal(
                a,
                b,
            ),
            (Self::SignedBigArray(a), Self::SignedBigArray(b)) => signed_big_arrays_equal(a, b),
            _ => false,
        }
    }

    /// Whether this term and `other` are equal, where they have one shape: both scalars of
    /// one kind, or both arrays of one kind. Terms of two shapes are not compared.
    pub fn same(&self, other: &VmTerm) -> (res: Option<bool>)
        ensures
            res == self@.same(other@),
    {
        if self.kind() != other.kind() || self.is_array() != other.is_array() {
            None
        } else if self.is_array() {
            Some(self.same_array(other))
        } else {
            Some(self.same_scalar(other))
        }
    }

    /// Whether the number of this term is below that of `other`, where both are integer
    /// scalars of one kind. Other terms have no order.
    pub fn below(&self, other: &VmTerm) -> (res: Option<bool>)
        ensures
            res == self@.below(other@),
    {
        if self.is_array() || other.is_array() || self.kind() != other.kind() {
            return None;
        }
        match (self, other) {
            (Self::Unsigned8(a), Self::Unsigned8(b)) => Some(a.less(*b)),
            (Self::Unsigned16(a), Self::Unsigned16(b)) => Some(a.less(*b)),
            (Self::Unsigned32(a), Self::Unsigned32(b)) => Some(a.less(*b)),
            (Self::Unsigned64(a), Self::Unsigned64(b)) => Some(a.less(*b)),
            (Self::Unsigned128(a), Self::Unsigned128(b)) => Some(a.less(*b)),
            (Self::Signed8(a), Self::Signed8(b)) => Some(a.less(*b)),
            (Self::Signed16(a), Self::Signed16(b)) => Some(a.less(*b)),
            (Self::Signed32(a), Self::Signed32(b)) => Some(a.less(*b)),
            (Self::Signed64(a), Self::Signed64(b)) => Some(a.less(*b)),
            (Self::Signed128(a), Self::Signed128(b)) => Some(a.less(*b)),
            (Self::UnsignedBig(a), Self::UnsignedBig(b)) => Some(a.less_than(b)),
            (Self::SignedBig(a), Self::SignedBig(b)) => Some(a.less_than(b)),
            _ => None,
        }
    }

    /// Whether `relation` holds of this term and `other`: equality and inequality of terms
    /// of one shape, order of integer scalars of one kind. None where the two cannot be
    /// compared so.
    pub fn relate(&self, relation: Relation, other: &VmTerm) -> (res: Option<bool>)
        ensures
            res == self@.related(relation, other@),
    {
        match relation {
            Relation::Eq => self.same(other),
            Relation::Neq => match self.same(other) {
                Some(equal) => Some(!equal),
                None => None,
            },
            Relation::Lt => self.below(other),
            Relation::Gt => other.below(self),
            Relation::Leq => match other.below(self) {
                Some(above) => Some(!above),
                None => None,
            },
            Relation::Geq => match self.below(other) {
                Some(below) => Some(!below),
                None => None,
            },
        }
    }
}

} // verus!
