//! The terms that instructions on one term make.

use vstd::prelude::*;
use crate::engine::action::UnaryOp;
use crate::engine::semantics::boolean;
use crate::engine::semantics::wide_index_of;
use crate::engine::semantics::type_tag;
use crate::engine::semantics::unary_result;
use crate::fixed::FixedInt;
use crate::model::Arith;
use crate::model::Kind;
use crate::model::TermModel;
use crate::term::VmTerm;

verus! {

/// The term that stands for true or false.
pub fn boolean_term(truth: bool) -> (term: VmTerm)
    ensures
        term@ == boolean(truth),
{
    VmTerm::Unsigned8(if truth {
        1
    } else {
        0
    })
}

/// An integer of fixed width with the other sign, where that is a number of its kind.
fn negate_fixed<T: FixedInt>(number: T) -> (res: Option<T>)
    ensures
        match res {
            Some(result) => result.number() == -number.number(),
            None => !T::kind().contains(-number.number()),
        },
{
    proof {
        crate::endian::lemma_pow256_values();
        T::lemma_kind();
    }
    let zero = T::from_bits(0);
    zero.calculate(Arith::Sub, number)
}

/// The distance of an integer of fixed width from zero, where that is a number of its
/// kind.
fn abs_fixed<T: FixedInt>(number: T) -> (res: Option<T>)
    ensures
        match res {
            Some(result) => result.number() == crate::endian::magnitude(number.number()),
            None => !T::kind().contains(crate::endian::magnitude(number.number()) as int),
        },
{
    proof {
        crate::endian::lemma_pow256_values();
        T::lemma_kind();
    }
    let zero = T::from_bits(0);
    if number.less(zero) {
        zero.calculate(Arith::Sub, number)
    } else {
        Some(number)
    }
}

impl VmTerm {
    /// The depth or index that the term names, where it is an integer scalar that is not
    /// negative; a number beyond 128 bits comes back as the largest 128-bit number.
    pub fn as_index(&self) -> (res: Option<u128>)
        ensures
            res == wide_index_of(self@),
    {
        match self {
            Self::Unsigned8(v) => Some(*v as u128),
            Self::Unsigned16(v) => Some(*v as u128),
            Self::Unsigned32(v) => Some(*v as u128),
            Self::Unsigned64(v) => Some(*v as u128),
            Self::Unsigned128(v) => Some(*v),
            Self::UnsignedBig(v) => match v.to_u128() {
                Some(value) => Some(value),
                None => Some(u128::MAX),
            },
            Self::Signed8(v) => if *v < 0 {
                None
            } else {
                Some(*v as u128)
            },
            Self::Signed16(v) => if *v < 0 {
                None
            } else {
                Some(*v as u128)
            },
            Self::Signed32(v) => if *v < 0 {
                None
            } else {
                Some(*v as u128)
            },
            Self::Signed64(v) => if *v < 0 {
                None
            } else {
                Some(*v as u128)
            },
            Self::Signed128(v) => if *v < 0 {
                None
            } else {
                Some(*v as u128)
            },
            Self::SignedBig(v) => if v.is_negative() {
                None
            } else {
                match v.magnitude().to_u128() {
                    Some(value) => Some(value),
                    None => Some(u128::MAX),
                }
            },
            _ => None,
        }
    }

    /// The tag byte that the canonical bytes of the term start with.
    pub fn type_tag(&self) -> (tag: u8)
        ensures
            tag == type_tag(self@),
    {
        match self {
            Self::Hash160(_) => 0x0,
            Self::Hash256(_) => 0x1,
            Self::Hash512(_) => 0x2,
            Self::Unsigned8(_) => 0x3,
            Self::Unsigned16(_) => 0x4,
            Self::Unsigned32(_) => 0x5,
            Self::Unsigned64(_) => 0x6,
            Self::Unsigned128(_) => 0x7,
            Self::UnsignedBig(_) => 0x8,
            Self::Signed8(_) => 0x9,
            Self::Signed16(_) => 0xa,
            Self::Signed32(_) => 0xb,
            Self::Signed64(_) => 0xc,
            Self::Signed128(_) => 0xd,
            Self::SignedBig(v) => if v.is_negative() {
                0x0e
            } else if v.is_zero() {
                0x10
            } else {
                0x0f
            },
            Self::Hash160Array(_) => 0x13,
            Self::Hash256Array(_) => 0x14,
            Self::Hash512Array(_) => 0x15,
            Self::Unsigned8Array(_) => 0x16,
            Self::Unsigned16Array(_) => 0x17,
            Self::Unsigned32Array(_) => 0x18,
            Self::Unsigned64Array(_) => 0x19,
            Self::Unsigned128Array(_) => 0x1a,
            Self::UnsignedBigArray(_) => 0x1b,
            Self::Signed8Array(_) => 0x1c,
            Self::Signed16Array(_) => 0x1d,
            Self::Signed32Array(_) => 0x1e,
            Self::Signed64Array(_) => 0x1f,
            Self::Signed128Array(_) => 0x20,
            Self::SignedBigArray(_) => 0x21,
        }
    }

    /// The number of elements of an array.
    pub fn array_len(&self) -> (res: Option<usize>)
        ensures
            match res {
                Some(len) => self@ matches TermModel::Array(_, elements) && elements.len() == len,
                None => self@ is Scalar,
            },
    {
        match self {
            Self::Hash160Array(v) => Some(v.len()),
            Self::Hash256Array(v) => Some(v.len()),
            Self::Hash512Array(v) => Some(v.len()),
            Self::Unsigned8Array(v) => Some(v.len()),
            Self::Unsigned16Array(v) => Some(v.len()),
            Self::Unsigned32Array(v) => Some(v.len()),
            Self::Unsigned64Array(v) => Some(v.len()),
            Self::Unsigned128Array(v) => Some(v.len()),
            Self::UnsignedBigArray(v) => Some(v.len()),
            Self::Signed8Array(v) => Some(v.len()),
            Self::Signed16Array(v) => Some(v.len()),
            Self::Signed32Array(v) => Some(v.len()),
            Self::Signed64Array(v) => Some(v.len()),
            Self::Signed128Array(v) => Some(v.len()),
            Self::SignedBigArray(v) => Some(v.len()),
            _ => None,
        }
    }

    /// The term with the other sign, where it is an integer scalar and that is a number of
    /// its kind.
    pub fn negate(&self) -> (res: Option<VmTerm>)
        ensures
            match res {
                Some(result) => unary_result(UnaryOp::Negate, self@) == Some(result@),
                None => unary_result(UnaryOp::Negate, self@) is None,
            },
    {
        match self {
            Self::Unsigned8(v) => match negate_fixed(*v) {
                Some(result) => Some(Self::Unsigned8(result)),
                None => None,
            },
            Self::Unsigned16(v) => match negate_fixed(*v) {
                Some(result) => Some(Self::Unsigned16(result)),
                None => None,
            },
            Self::Unsigned32(v) => match negate_fixed(*v) {
                Some(result) => Some(Self::Unsigned32(result)),
                None => None,
            },
            Self::Unsigned64(v) => match negate_fixed(*v) {
                Some(result) => Some(Self::Unsigned64(result)),
                None => None,
            },
            Self::Unsigned128(v) => match negate_fixed(*v) {
                Some(result) => Some(Self::Unsigned128(result)),
                None => None,
            },
            Self::Signed8(v) => match negate_fixed(*v) {
                Some(result) => Some(Self::Signed8(result)),
                None => None,
            },
            Self::Signed16(v) => match negate_fixed(*v) {
                Some(result) => Some(Self::Signed16(result)),
                None => None,
            },
            Self::Signed32(v) => match negate_fixed(*v) {
                Some(result) => Some(Self::Signed32(result)),
                None => None,
            },
            Self::Signed64(v) => match negate_fixed(*v) {
                Some(result) => Some(Self::Signed64(result)),
                None => None,
            },
            Self::Signed128(v) => match negate_fixed(*v) {
                Some(result) => Some(Self::Signed128(result)),
                None => None,
            },
            Self::UnsignedBig(v) => if v.is_zero() {
                Some(Self::UnsignedBig(v.clone()))
            } else {
                None
            },
            Self::SignedBig(v) => Some(Self::SignedBig(v.negated())),
            _ => None,
        }
    }

    /// The distance of the term from zero, where it is an integer scalar and that is a
    /// number of its kind.
    pub fn abs(&self) -> (res: Option<VmTerm>)
        ensures
            match res {
                Some(result) => unary_result(UnaryOp::Abs, self@) == Some(result@),
                None => unary_result(UnaryOp::Abs, self@) is None,
            },
    {
        match self {
            Self::Unsigned8(v) => match abs_fixed(*v) {
                Some(result) => Some(Self::Unsigned8(result)),
                None => None,
            },
            Self::Unsigned16(v) => match abs_fixed(*v) {
                Some(result) => Some(Self::Unsigned16(result)),
                None => None,
            },
            Self::Unsigned32(v) => match abs_fixed(*v) {
                Some(result) => Some(Self::Unsigned32(result)),
                None => None,
            },
            Self::Unsigned64(v) => match abs_fixed(*v) {
                Some(result) => Some(Self::Unsigned64(result)),
                None => None,
            },
            Self::Unsigned128(v) => match abs_fixed(*v) {
                Some(result) => Some(Self::Unsigned128(result)),
                None => None,
            },
            Self::Signed8(v) => match abs_fixed(*v) {
                Some(result) => Some(Self::Signed8(result)),
                None => None,
            },
            Self::Signed16(v) => match abs_fixed(*v) {
                Some(result) => Some(Self::Signed16(result)),
                None => None,
            },
            Self::Signed32(v) => match abs_fixed(*v) {
                Some(result) => Some(Self::Signed32(result)),
                None => None,
            },
            Self::Signed64(v) => match abs_fixed(*v) {
                Some(result) => Some(Self::Signed64(result)),
                None => None,
            },
            Self::Signed128(v) => match abs_fixed(*v) {
                Some(result) => Some(Self::Signed128(result)),
                None => None,
            },
            Self::UnsignedBig(v) => Some(Self::UnsignedBig(v.clone())),
            Self::SignedBig(v) => if v.is_negative() {
                Some(Self::SignedBig(v.negated()))
            } else {
                Some(Self::SignedBig(v.clone()))
            },
            _ => None,
        }
    }

    /// What the instruction `op` makes of the term; none where the instruction is not for
    /// such a term or has no result.
    pub fn apply(self, op: UnaryOp) -> (res: Option<VmTerm>)
        ensures
            match res {
                Some(result) => unary_result(op, self@) == Some(result@),
                None => unary_result(op, self@) is None,
            },
    {
        match op {
            UnaryOp::Add1 => {
                let mut term = self;
                match term.add_one() {
                    Some(_) => Some(term),
                    None => None,
                }
            },
            UnaryOp::Sub1 => {
                let mut term = self;
                if let Self::UnsignedBig(v) = &term {
                    if v.is_zero() {
                        return None;
                    }
                }
                match term.sub_one() {
                    Some(_) => Some(term),
                    None => None,
                }
            },
            UnaryOp::Negate => self.negate(),
            UnaryOp::Abs => self.abs(),
            UnaryOp::ArrayLen => match self.array_len() {
                Some(len) => Some(Self::Unsigned64(len as u64)),
                None => None,
            },
            UnaryOp::GetType => Some(Self::Unsigned8(self.type_tag())),
            UnaryOp::Size => {
                let size = self.capped_size();
                if size < u64::MAX {
                    Some(Self::Unsigned64(size))
                } else {
                    None
                }
            },
            UnaryOp::IsNaN | UnaryOp::IsInf | UnaryOp::IsMinusInf => if self.is_array() {
                None
            } else {
                match self.kind() {
                    Kind::Hash160 | Kind::Hash256 | Kind::Hash512 => None,
                    _ => Some(boolean_term(false)),
                }
            },
        }
    }
}

} // verus!
