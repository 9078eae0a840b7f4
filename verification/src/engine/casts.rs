//! Casts between the integer kinds. A cast is the only way from one kind to another, and
//! it keeps the number or has no result.

use vstd::prelude::*;
use crate::bigint::BigSigned;
use crate::bigint::BigUnsigned;
use crate::decoding::scalar_kind;
use crate::fixed::from_sign_magnitude;
use crate::model::Kind;
use crate::model::TermModel;
use crate::model::Value;
use crate::term::VmTerm;

verus! {

/// The kind that a term names as the target of a cast: the term is an 8-bit unsigned number
/// that is the tag byte of an integer scalar.
pub open spec fn cast_target(term: TermModel) -> Option<Kind> {
    match term {
        TermModel::Scalar(Kind::Unsigned8, Value::Number(tag)) => match scalar_kind(tag as u8) {
            Some(kind) => if kind.is_numeric() {
                Some(kind)
            } else {
                None
            },
            None => None,
        },
        _ => None,
    }
}

/// The kind of scalar that a tag byte selects.
pub fn kind_of_tag(tag: u8) -> (kind: Option<Kind>)
    ensures
        kind == scalar_kind(tag),
{
    match tag {
        0x00 => Some(Kind::Hash160),
        0x01 => Some(Kind::Hash256),
        0x02 => Some(Kind::Hash512),
        0x03 => Some(Kind::Unsigned8),
        0x04 => Some(Kind::Unsigned16),
        0x05 => Some(Kind::Unsigned32),
        0x06 => Some(Kind::Unsigned64),
        0x07 => Some(Kind::Unsigned128),
        0x08 => Some(Kind::UnsignedBig),
        0x09 => Some(Kind::Signed8),
        0x0a => Some(Kind::Signed16),
        0x0b => Some(Kind::Signed32),
        0x0c => Some(Kind::Signed64),
        0x0d => Some(Kind::Signed128),
        0x0e | 0x0f | 0x10 => Some(Kind::SignedBig),
        _ => None,
    }
}

/// The magnitude of a signed machine integer.
fn magnitude_of(value: i128) -> (magnitude: u128)
    ensures
        magnitude == crate::endian::magnitude(value as int),
{
    if value >= 0 {
        value as u128
    } else {
        (-(value + 1)) as u128 + 1
    }
}

impl VmTerm {
    /// The kind that the term names as the target of a cast.
    pub fn as_cast_target(&self) -> (kind: Option<Kind>)
        ensures
            kind == cast_target(self@),
    {
        match self {
            Self::Unsigned8(tag) => match kind_of_tag(*tag) {
                Some(Kind::Hash160) | Some(Kind::Hash256) | Some(Kind::Hash512) | None => None,
                Some(kind) => Some(kind),
            },
            _ => None,
        }
    }

    /// Whether the number of an integer scalar is below zero, and its magnitude.
    fn sign_magnitude(&self) -> (res: Option<(bool, BigUnsigned)>)
        ensures
            match res {
                Some((negative, magnitude)) => self@.number() matches Some(v) && negative == (v
                    < 0) && magnitude@ == crate::endian::magnitude(v),
                None => self@.number() is None,
            },
    {
        match self {
            Self::Unsigned8(v) => Some((false, BigUnsigned::from_u128(*v as u128))),
            Self::Unsigned16(v) => Some((false, BigUnsigned::from_u128(*v as u128))),
            Self::Unsigned32(v) => Some((false, BigUnsigned::from_u128(*v as u128))),
            Self::Unsigned64(v) => Some((false, BigUnsigned::from_u128(*v as u128))),
            Self::Unsigned128(v) => Some((false, BigUnsigned::from_u128(*v))),
            Self::UnsignedBig(v) => Some((false, v.clone())),
            Self::Signed8(v) => Some((*v < 0, BigUnsigned::from_u128(magnitude_of(*v as i128)))),
            Self::Signed16(v) => Some((*v < 0, BigUnsigned::from_u128(magnitude_of(*v as i128)))),
            Self::Signed32(v) => Some((*v < 0, BigUnsigned::from_u128(magnitude_of(*v as i128)))),
            Self::Signed64(v) => Some((*v < 0, BigUnsigned::from_u128(magnitude_of(*v as i128)))),
            Self::Signed128(v) => Some((*v < 0, BigUnsigned::from_u128(magnitude_of(*v)))),
            Self::SignedBig(v) => Some((v.is_negative(), v.magnitude().clone())),
            _ => None,
        }
    }

    /// The integer scalar of `kind` with the given sign and magnitude, where that is a
    /// number of the kind.
    fn of_sign_magnitude(kind: Kind, negative: bool, magnitude: BigUnsigned) -> (res: Option<
        VmTerm,
    >)
        ensures
            match res {
                Some(term) => term@ == TermModel::Scalar(
                    kind,
                    Value::Number(
                        if negative {
                            -(magnitude@ as int)
                        } else {
                            magnitude@ as int
                        },
                    ),
                ) && kind.contains(
                    if negative {
                        -(magnitude@ as int)
                    } else {
                        magnitude@ as int
                    },
                ),
                None => !kind.contains(
                    if negative {
                        -(magnitude@ as int)
                    } else {
                        magnitude@ as int
                    },
                ),
            },
    {
        match kind {
            Kind::Hash160 | Kind::Hash256 | Kind::Hash512 => None,
            Kind::UnsignedBig => if negative && !magnitude.is_zero() {
                None
            } else {
                Some(Self::UnsignedBig(magnitude))
            },
            Kind::SignedBig => Some(
                Self::SignedBig(BigSigned::from_sign_magnitude(negative, magnitude)),
            ),
            _ => {
                let small = match magnitude.to_u128() {
                    Some(small) => small,
                    None => {
                        return None;
                    },
                };
                match kind {
                    Kind::Unsigned8 => match from_sign_magnitude::<u8>(negative, small) {
                        Some(number) => Some(Self::Unsigned8(number)),
                        None => None,
                    },
                    Kind::Unsigned16 => match from_sign_magnitude::<u16>(negative, small) {
                        Some(number) => Some(Self::Unsigned16(number)),
                        None => None,
                    },
                    Kind::Unsigned32 => match from_sign_magnitude::<u32>(negative, small) {
                        Some(number) => Some(Self::Unsigned32(number)),
                        None => None,
                    },
                    Kind::Unsigned64 => match from_sign_magnitude::<u64>(negative, small) {
                        Some(number) => Some(Self::Unsigned64(number)),
                        None => None,
                    },
                    Kind::Unsigned128 => match from_sign_magnitude::<u128>(negative, small) {
                        Some(number) => Some(Self::Unsigned128(number)),
                        None => None,
                    },
                    Kind::Signed8 => match from_sign_magnitude::<i8>(negative, small) {
                        Some(number) => Some(Self::Signed8(number)),
                        None => None,
                    },
                    Kind::Signed16 => match from_sign_magnitude::<i16>(negative, small) {
                        Some(number) => Some(Self::Signed16(number)),
                        None => None,
                    },
                    Kind::Signed32 => match from_sign_magnitude::<i32>(negative, small) {
                        Some(number) => Some(Self::Signed32(number)),
                        None => None,
                    },
                    Kind::Signed64 => match from_sign_magnitude::<i64>(negative, small) {
                        Some(number) => Some(Self::Signed64(number)),
                        None => None,
                    },
                    Kind::Signed128 => match from_sign_magnitude::<i128>(negative, small) {
                        Some(number) => Some(Self::Signed128(number)),
                        None => None,
                    },
                    _ => None,
                }
            },
        }
    }

    /// The number of this integer scalar as an integer scalar of the kind `target`, where
    /// it is a number of that kind.
    pub fn cast(&self, target: Kind) -> (res: Option<VmTerm>)
        ensures
            match res {
                Some(result) => self@.cast(target) == Some(result@),
                None => self@.cast(target) is None,
            },
    {
        match self.sign_magnitude() {
            Some((negative, magnitude)) => Self::of_sign_magnitude(target, negative, magnitude),
            None => None,
        }
    }
}

} // verus!
