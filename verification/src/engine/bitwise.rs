//! Instructions on the bits of unsigned integers of fixed width.

use vstd::prelude::*;
use crate::endian::lemma_pow256_values;
use crate::fixed::FixedInt;
use crate::model::Kind;
use crate::model::TermModel;
use crate::model::Value;
use crate::term::VmTerm;

verus! {

/// The bits of an unsigned integer of fixed width, all set.
pub open spec fn mask_of(kind: Kind) -> u128 {
    match kind {
        Kind::Unsigned8 => 0xff,
        Kind::Unsigned16 => 0xffff,
        Kind::Unsigned32 => 0xffff_ffff,
        Kind::Unsigned64 => 0xffff_ffff_ffff_ffff,
        _ => 0xffff_ffff_ffff_ffff_ffff_ffff_ffff_ffff,
    }
}

/// The number of a scalar that is an unsigned integer of fixed width, as bits; no other
/// term has bits.
pub open spec fn bits_of(term: TermModel) -> Option<u128> {
    match term {
        TermModel::Scalar(kind, Value::Number(v)) => if kind.is_numeric() && !kind.is_signed()
            && !kind.is_big() {
            Some(v as u128)
        } else {
            None
        },
        _ => None,
    }
}

/// The bits of two unsigned integers of one fixed width, each set where the two differ.
pub open spec fn xored(left: TermModel, right: TermModel) -> Option<TermModel> {
    match (bits_of(left), bits_of(right)) {
        (Some(a), Some(b)) => if left.kind() == right.kind() {
            Some(TermModel::Scalar(left.kind(), Value::Number((a ^ b) as int)))
        } else {
            None
        },
        _ => None,
    }
}

/// The bits of an unsigned integer of fixed width, each changed.
pub open spec fn inverted(term: TermModel) -> Option<TermModel> {
    match bits_of(term) {
        Some(a) => Some(
            TermModel::Scalar(term.kind(), Value::Number((a ^ mask_of(term.kind())) as int)),
        ),
        None => None,
    }
}

/// The bits of an unsigned integer of fixed width, moved up by `by` places, which are fewer
/// than the integer has bits; the bits that leave the width are lost.
pub open spec fn shifted_left(term: TermModel, by: nat) -> Option<TermModel> {
    match bits_of(term) {
        Some(a) => if by < 8 * term.kind().width() {
            Some(
                TermModel::Scalar(
                    term.kind(),
                    Value::Number(((a << (by as u32)) & mask_of(term.kind())) as int),
                ),
            )
        } else {
            None
        },
        None => None,
    }
}

/// The bits of an unsigned integer of fixed width, moved down by `by` places, which are
/// fewer than the integer has bits.
pub open spec fn shifted_right(term: TermModel, by: nat) -> Option<TermModel> {
    match bits_of(term) {
        Some(a) => if by < 8 * term.kind().width() {
            Some(TermModel::Scalar(term.kind(), Value::Number((a >> (by as u32)) as int)))
        } else {
            None
        },
        None => None,
    }
}

/// What an instruction on bits does.
#[derive(Clone, Copy, Debug, PartialEq, Eq, Structural)]
pub enum BitOp {
    Xor,
    Invert,
    ShiftLeft,
    ShiftRight,
}

/// The bits of an unsigned type of fixed width, all set.
fn mask<T: FixedInt>() -> (mask: u128)
    requires
        !T::kind().is_signed(),
    ensures
        mask == mask_of(T::kind()),
        mask == crate::endian::pow256(T::kind().width()) - 1,
{
    proof {
        lemma_pow256_values();
        T::lemma_kind();
    }
    let width = T::width();
    if width == 1 {
        0xff
    } else if width == 2 {
        0xffff
    } else if width == 4 {
        0xffff_ffff
    } else if width == 8 {
        0xffff_ffff_ffff_ffff
    } else {
        0xffff_ffff_ffff_ffff_ffff_ffff_ffff_ffff
    }
}

/// The unsigned integer whose bits are those of `bits` that the mask of its type keeps.
fn masked<T: FixedInt>(bits: u128) -> (number: T)
    requires
        !T::kind().is_signed(),
    ensures
        number.number() == (bits & mask_of(T::kind())) as int,
{
    let mask = mask::<T>();
    let kept = bits & mask;
    assert(kept <= mask) by (bit_vector)
        requires
            kept == bits & mask,
    ;
    T::from_bits(kept)
}

fn xor_fixed<T: FixedInt>(a: T, b: T) -> (number: T)
    requires
        !T::kind().is_signed(),
    ensures
        number.number() == ((a.number() as u128) ^ (b.number() as u128)) as int,
{
    let mask = mask::<T>();
    let x = a.to_bits();
    let y = b.to_bits();
    let bits = x ^ y;
    assert(bits & mask == bits) by (bit_vector)
        requires
            bits == x ^ y,
            x <= mask,
            y <= mask,
            mask == 0xff || mask == 0xffff || mask == 0xffff_ffff || mask == 0xffff_ffff_ffff_ffff
                || mask == 0xffff_ffff_ffff_ffff_ffff_ffff_ffff_ffff,
    ;
    masked::<T>(bits)
}

fn invert_fixed<T: FixedInt>(a: T) -> (number: T)
    requires
        !T::kind().is_signed(),
    ensures
        number.number() == ((a.number() as u128) ^ mask_of(T::kind())) as int,
{
    let mask = mask::<T>();
    let x = a.to_bits();
    let bits = x ^ mask;
    assert(bits & mask == bits) by (bit_vector)
        requires
            bits == x ^ mask,
            x <= mask,
            mask == 0xff || mask == 0xffff || mask == 0xffff_ffff || mask == 0xffff_ffff_ffff_ffff
                || mask == 0xffff_ffff_ffff_ffff_ffff_ffff_ffff_ffff,
    ;
    masked::<T>(bits)
}

fn shift_left_fixed<T: FixedInt>(a: T, by: u32) -> (number: T)
    requires
        !T::kind().is_signed(),
        by < 8 * T::kind().width(),
    ensures
        number.number() == (((a.number() as u128) << by) & mask_of(T::kind())) as int,
{
    proof {
        T::lemma_kind();
    }
    let width = T::width();
    masked::<T>(a.to_bits() << by)
}

fn shift_right_fixed<T: FixedInt>(a: T, by: u32) -> (number: T)
    requires
        !T::kind().is_signed(),
        by < 8 * T::kind().width(),
    ensures
        number.number() == ((a.number() as u128) >> by) as int,
{
    proof {
        T::lemma_kind();
    }
    let width = T::width();
    let mask = mask::<T>();
    let x = a.to_bits();
    let bits = x >> by;
    assert(bits & mask == bits) by (bit_vector)
        requires
            bits == x >> by,
            x <= mask,
            mask == 0xff || mask == 0xffff || mask == 0xffff_ffff || mask == 0xffff_ffff_ffff_ffff
                || mask == 0xffff_ffff_ffff_ffff_ffff_ffff_ffff_ffff,
    ;
    masked::<T>(bits)
}

impl VmTerm {
    /// The bits of this unsigned integer of fixed width and of `other`, one of its kind,
    /// each set where the two differ.
    pub fn xor(&self, other: &VmTerm) -> (res: Option<VmTerm>)
        ensures
            match res {
                Some(result) => xored(self@, other@) == Some(result@),
                None => xored(self@, other@) is None,
            },
    {
        match (self, other) {
            (Self::Unsigned8(a), Self::Unsigned8(b)) => Some(Self::Unsigned8(xor_fixed(*a, *b))),
            (Self::Unsigned16(a), Self::Unsigned16(b)) => Some(Self::Unsigned16(xor_fixed(*a, *b))),
            (Self::Unsigned32(a), Self::Unsigned32(b)) => Some(Self::Unsigned32(xor_fixed(*a, *b))),
            (Self::Unsigned64(a), Self::Unsigned64(b)) => Some(Self::Unsigned64(xor_fixed(*a, *b))),
            (Self::Unsigned128(a), Self::Unsigned128(b)) => Some(Self::Unsigned128(xor_fixed(*a, *b))),
            _ => None,
        }
    }

    /// The bits of this unsigned integer of fixed width, each changed.
    pub fn invert(&self) -> (res: Option<VmTerm>)
        ensures
            match res {
                Some(result) => inverted(self@) == Some(result@),
                None => inverted(self@) is None,
            },
    {
        match self {
            Self::Unsigned8(a) => Some(Self::Unsigned8(invert_fixed(*a))),
            Self::Unsigned16(a) => Some(Self::Unsigned16(invert_fixed(*a))),
            Self::Unsigned32(a) => Some(Self::Unsigned32(invert_fixed(*a))),
            Self::Unsigned64(a) => Some(Self::Unsigned64(invert_fixed(*a))),
            Self::Unsigned128(a) => Some(Self::Unsigned128(invert_fixed(*a))),
            _ => None,
        }
    }

    /// The number of bits of an unsigned integer of fixed width.
    fn bit_width(&self) -> (res: Option<usize>)
        ensures
            match res {
                Some(bits) => bits_of(self@) is Some && bits == 8 * self@.kind().width(),
                None => bits_of(self@) is None,
            },
    {
        match self {
            Self::Unsigned8(_) => Some(8),
            Self::Unsigned16(_) => Some(16),
            Self::Unsigned32(_) => Some(32),
            Self::Unsigned64(_) => Some(64),
            Self::Unsigned128(_) => Some(128),
            _ => None,
        }
    }

    /// The bits of this unsigned integer of fixed width, moved up by `by` places.
    pub fn shift_left(&self, by: usize) -> (res: Option<VmTerm>)
        ensures
            match res {
                Some(result) => shifted_left(self@, by as nat) == Some(result@),
                None => shifted_left(self@, by as nat) is None,
            },
    {
        match self.bit_width() {
            None => None,
            Some(bits) => if by >= bits {
                None
            } else {
                let by = by as u32;
                match self {
                    Self::Unsigned8(a) => Some(Self::Unsigned8(shift_left_fixed(*a, by))),
                    Self::Unsigned16(a) => Some(Self::Unsigned16(shift_left_fixed(*a, by))),
                    Self::Unsigned32(a) => Some(Self::Unsigned32(shift_left_fixed(*a, by))),
                    Self::Unsigned64(a) => Some(Self::Unsigned64(shift_left_fixed(*a, by))),
                    Self::Unsigned128(a) => Some(Self::Unsigned128(shift_left_fixed(*a, by))),
                    _ => None,
                }
            },
        }
    }

    /// The bits of this unsigned integer of fixed width, moved down by `by` places.
    pub fn shift_right(&self, by: usize) -> (res: Option<VmTerm>)
        ensures
            match res {
                Some(result) => shifted_right(self@, by as nat) == Some(result@),
                None => shifted_right(self@, by as nat) is None,
            },
    {
        match self.bit_width() {
            None => None,
            Some(bits) => if by >= bits {
                None
            } else {
                let by = by as u32;
                match self {
                    Self::Unsigned8(a) => Some(Self::Unsigned8(shift_right_fixed(*a, by))),
                    Self::Unsigned16(a) => Some(Self::Unsigned16(shift_right_fixed(*a, by))),
                    Self::Unsigned32(a) => Some(Self::Unsigned32(shift_right_fixed(*a, by))),
                    Self::Unsigned64(a) => Some(Self::Unsigned64(shift_right_fixed(*a, by))),
                    Self::Unsigned128(a) => Some(Self::Unsigned128(shift_right_fixed(*a, by))),
                    _ => None,
                }
            },
        }
    }
}

} // verus!
