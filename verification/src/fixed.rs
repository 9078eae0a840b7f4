//! The integers of fixed width, as the codec sees them: a kind, a number, and the number's
//! unsigned form in two's complement over the kind's width.

use vstd::prelude::*;
use crate::endian::from_twos_complement;
use crate::endian::lemma_pow256_values;
use crate::endian::pow256;
use crate::endian::twos_complement;
use crate::model::Arith;
use crate::model::Kind;
use crate::model::Value;

verus! {

/// The number that `bits` stand for in `kind`: themselves in an unsigned kind, their two's
/// complement reading over the kind's width in a signed one.
pub open spec fn number_of_bits(kind: Kind, bits: nat) -> int {
    if kind.is_signed() {
        from_twos_complement(bits, kind.width())
    } else {
        bits as int
    }
}

/// An integer type of fixed width.
pub trait FixedInt: Copy + Sized {
    /// The kind of scalar that holds this type.
    spec fn kind() -> Kind;

    /// The number that a value is.
    spec fn number(self) -> int;

    /// The kind is an integer kind of fixed width.
    proof fn lemma_kind()
        ensures
            Self::kind().is_numeric(),
            !Self::kind().is_big(),
    ;

    /// Every value is a number of the kind.
    proof fn lemma_number(self)
        ensures
            Self::kind().contains(self.number()),
    ;

    /// Whether the type has numbers below zero.
    fn signed() -> (signed: bool)
        ensures
            signed == Self::kind().is_signed(),
    ;

    /// The number of bytes of a value.
    fn width() -> (w: usize)
        ensures
            w == Self::kind().width(),
            1 <= w <= 16,
    ;

    /// The value in two's complement, as an unsigned number.
    fn to_bits(self) -> (bits: u128)
        ensures
            bits == twos_complement(self.number(), Self::kind().width()),
            bits < pow256(Self::kind().width()),
            number_of_bits(Self::kind(), bits as nat) == self.number(),
    ;

    /// Whether the value is below `other`.
    fn less(self, other: Self) -> (less: bool)
        ensures
            less == (self.number() < other.number()),
    ;

    /// The result of a calculation with `other`, where there is one and it is a number of
    /// the kind.
    fn calculate(self, op: Arith, other: Self) -> (res: Option<Self>)
        ensures
            match res {
                Some(result) => op.apply(self.number(), other.number()) == Some(result.number()),
                None => op.apply(self.number(), other.number()) matches Some(result)
                    ==> !Self::kind().contains(result),
            },
    ;

    /// The value that an unsigned number under `256^width` stands for.
    fn from_bits(bits: u128) -> (value: Self)
        requires
            bits < pow256(Self::kind().width()),
        ensures
            value.number() == number_of_bits(Self::kind(), bits as nat),
    ;
}

/// `256^width` for a width below sixteen bytes.
fn power_of_width(width: usize) -> (power: u128)
    requires
        width == 1 || width == 2 || width == 4 || width == 8,
    ensures
        power == pow256(width as nat),
{
    proof {
        lemma_pow256_values();
    }
    if width == 1 {
        0x100
    } else if width == 2 {
        0x1_0000
    } else if width == 4 {
        0x1_0000_0000
    } else {
        0x1_0000_0000_0000_0000
    }
}

/// The integer of fixed width with the given sign and magnitude, where that is a number
/// of the width's kind.
pub fn from_sign_magnitude<T: FixedInt>(negative: bool, magnitude: u128) -> (res: Option<T>)
    ensures
        match res {
            Some(number) => number.number() == if negative {
                -(magnitude as int)
            } else {
                magnitude as int
            },
            None => !T::kind().contains(
                if negative {
                    -(magnitude as int)
                } else {
                    magnitude as int
                },
            ),
        },
{
    proof {
        lemma_pow256_values();
        T::lemma_kind();
    }
    let width = T::width();
    let ghost kind = T::kind();
    assert(width == 1 || width == 2 || width == 4 || width == 8 || width == 16) by {
        assert(kind.width() == width);
    }
    let bits: u128 = if !T::signed() {
        if negative && magnitude > 0 {
            return None;
        }
        if width < 16 && magnitude >= power_of_width(width) {
            return None;
        }
        magnitude
    } else if width == 16 {
        let half: u128 = 0x8000_0000_0000_0000_0000_0000_0000_0000;
        if !negative || magnitude == 0 {
            if magnitude >= half {
                return None;
            }
            magnitude
        } else {
            if magnitude > half {
                return None;
            }
            (u128::MAX - magnitude) + 1
        }
    } else {
        let power = power_of_width(width);
        let half = power / 2;
        if !negative || magnitude == 0 {
            if magnitude >= half {
                return None;
            }
            magnitude
        } else {
            if magnitude > half {
                return None;
            }
            power - magnitude
        }
    };
    let number = T::from_bits(bits);
    Some(number)
}

/// The values of a sequence of integers of fixed width.
pub open spec fn number_values<T: FixedInt>(numbers: Seq<T>) -> Seq<Value> {
    Seq::new(numbers.len(), |i: int| Value::Number(numbers[i].number()))
}

impl FixedInt for u8 {
    open spec fn kind() -> Kind {
        Kind::Unsigned8
    }

    open spec fn number(self) -> int {
        self as int
    }

    proof fn lemma_kind() {
    }

    proof fn lemma_number(self) {
    }

    fn signed() -> (signed: bool) {
        false
    }

    fn width() -> (w: usize) {
        1
    }

    fn to_bits(self) -> (bits: u128) {
        proof {
            lemma_pow256_values();
        }
        self as u128
    }

    fn less(self, other: Self) -> (less: bool) {
        self < other
    }

    fn calculate(self, op: Arith, other: Self) -> (res: Option<Self>) {
        match op {
            Arith::Add => self.checked_add(other),
            Arith::Sub => self.checked_sub(other),
            Arith::Mul => self.checked_mul(other),
            Arith::Div => self.checked_div(other),
            Arith::Min => Some(if self < other {
                self
            } else {
                other
            }),
            Arith::Max => Some(if self < other {
                other
            } else {
                self
            }),
        }
    }

    fn from_bits(bits: u128) -> (value: Self) {
        proof {
            lemma_pow256_values();
        }
        bits as u8
    }
}

impl FixedInt for u16 {
    open spec fn kind() -> Kind {
        Kind::Unsigned16
    }

    open spec fn number(self) -> int {
        self as int
    }

    proof fn lemma_kind() {
    }

    proof fn lemma_number(self) {
    }

    fn signed() -> (signed: bool) {
        false
    }

    fn width() -> (w: usize) {
        2
    }

    fn to_bits(self) -> (bits: u128) {
        proof {
            lemma_pow256_values();
        }
        self as u128
    }

    fn less(self, other: Self) -> (less: bool) {
        self < other
    }

    fn calculate(self, op: Arith, other: Self) -> (res: Option<Self>) {
        match op {
            Arith::Add => self.checked_add(other),
            Arith::Sub => self.checked_sub(other),
            Arith::Mul => self.checked_mul(other),
            Arith::Div => self.checked_div(other),
            Arith::Min => Some(if self < other {
                self
            } else {
                other
            }),
            Arith::Max => Some(if self < other {
                other
            } else {
                self
            }),
        }
    }

    fn from_bits(bits: u128) -> (value: Self) {
        proof {
            lemma_pow256_values();
        }
        bits as u16
    }
}

impl FixedInt for u32 {
    open spec fn kind() -> Kind {
        Kind::Unsigned32
    }

    open spec fn number(self) -> int {
        self as int
    }

    proof fn lemma_kind() {
    }

    proof fn lemma_number(self) {
    }

    fn signed() -> (signed: bool) {
        false
    }

    fn width() -> (w: usize) {
        4
    }

    fn to_bits(self) -> (bits: u128) {
        proof {
            lemma_pow256_values();
        }
        self as u128
    }

    fn less(self, other: Self) -> (less: bool) {
        self < other
    }

    fn calculate(self, op: Arith, other: Self) -> (res: Option<Self>) {
        match op {
            Arith::Add => self.checked_add(other),
            Arith::Sub => self.checked_sub(other),
            Arith::Mul => self.checked_mul(other),
            Arith::Div => self.checked_div(other),
            Arith::Min => Some(if self < other {
                self
            } else {
                other
            }),
            Arith::Max => Some(if self < other {
                other
            } else {
                self
            }),
        }
    }

    fn from_bits(bits: u128) -> (value: Self) {
        proof {
            lemma_pow256_values();
        }
        bits as u32
    }
}

impl FixedInt for u64 {
    open spec fn kind() -> Kind {
        Kind::Unsigned64
    }

    open spec fn number(self) -> int {
        self as int
    }

    proof fn lemma_kind() {
    }

    proof fn lemma_number(self) {
    }

    fn signed() -> (signed: bool) {
        false
    }

    fn width() -> (w: usize) {
        8
    }

    fn to_bits(self) -> (bits: u128) {
        proof {
            lemma_pow256_values();
        }
        self as u128
    }

    fn less(self, other: Self) -> (less: bool) {
        self < other
    }

    fn calculate(self, op: Arith, other: Self) -> (res: Option<Self>) {
        match op {
            Arith::Add => self.checked_add(other),
            Arith::Sub => self.checked_sub(other),
            Arith::Mul => self.checked_mul(other),
            Arith::Div => self.checked_div(other),
            Arith::Min => Some(if self < other {
                self
            } else {
                other
            }),
            Arith::Max => Some(if self < other {
                other
            } else {
                self
            }),
        }
    }

    fn from_bits(bits: u128) -> (value: Self) {
        proof {
            lemma_pow256_values();
        }
        bits as u64
    }
}

impl FixedInt for u128 {
    open spec fn kind() -> Kind {
        Kind::Unsigned128
    }

    open spec fn number(self) -> int {
        self as int
    }

    proof fn lemma_kind() {
    }

    proof fn lemma_number(self) {
    }

    fn signed() -> (signed: bool) {
        false
    }

    fn width() -> (w: usize) {
        16
    }

    fn to_bits(self) -> (bits: u128) {
        proof {
            lemma_pow256_values();
        }
        self as u128
    }

    fn less(self, other: Self) -> (less: bool) {
        self < other
    }

    fn calculate(self, op: Arith, other: Self) -> (res: Option<Self>) {
        match op {
            Arith::Add => self.checked_add(other),
            Arith::Sub => self.checked_sub(other),
            Arith::Mul => self.checked_mul(other),
            Arith::Div => self.checked_div(other),
            Arith::Min => Some(if self < other {
                self
            } else {
                other
            }),
            Arith::Max => Some(if self < other {
                other
            } else {
                self
            }),
        }
    }

    fn from_bits(bits: u128) -> (value: Self) {
        proof {
            lemma_pow256_values();
        }
        bits as u128
    }
}

impl FixedInt for i8 {
    open spec fn kind() -> Kind {
        Kind::Signed8
    }

    open spec fn number(self) -> int {
        self as int
    }

    proof fn lemma_kind() {
    }

    proof fn lemma_number(self) {
    }

    fn signed() -> (signed: bool) {
        true
    }

    fn width() -> (w: usize) {
        1
    }

    fn to_bits(self) -> (bits: u128) {
        proof {
            lemma_pow256_values();
        }
        if self >= 0 {
            self as u128
        } else {
            (self as i16 + 0x100) as u128
        }
    }

    fn less(self, other: Self) -> (less: bool) {
        self < other
    }

    fn calculate(self, op: Arith, other: Self) -> (res: Option<Self>) {
        match op {
            Arith::Add => self.checked_add(other),
            Arith::Sub => self.checked_sub(other),
            Arith::Mul => self.checked_mul(other),
            Arith::Div => self.checked_div(other),
            Arith::Min => Some(if self < other {
                self
            } else {
                other
            }),
            Arith::Max => Some(if self < other {
                other
            } else {
                self
            }),
        }
    }

    fn from_bits(bits: u128) -> (value: Self) {
        proof {
            lemma_pow256_values();
        }
        if bits < 0x80 {
            bits as i8
        } else {
            (bits as i16 - 0x100) as i8
        }
    }
}

impl FixedInt for i16 {
    open spec fn kind() -> Kind {
        Kind::Signed16
    }

    open spec fn number(self) -> int {
        self as int
    }

    proof fn lemma_kind() {
    }

    proof fn lemma_number(self) {
    }

    fn signed() -> (signed: bool) {
        true
    }

    fn width() -> (w: usize) {
        2
    }

    fn to_bits(self) -> (bits: u128) {
        proof {
            lemma_pow256_values();
        }
        if self >= 0 {
            self as u128
        } else {
            (self as i32 + 0x1_0000) as u128
        }
    }

    fn less(self, other: Self) -> (less: bool) {
        self < other
    }

    fn calculate(self, op: Arith, other: Self) -> (res: Option<Self>) {
        match op {
            Arith::Add => self.checked_add(other),
            Arith::Sub => self.checked_sub(other),
            Arith::Mul => self.checked_mul(other),
            Arith::Div => self.checked_div(other),
            Arith::Min => Some(if self < other {
                self
            } else {
                other
            }),
            Arith::Max => Some(if self < other {
                other
            } else {
                self
            }),
        }
    }

    fn from_bits(bits: u128) -> (value: Self) {
        proof {
            lemma_pow256_values();
        }
        if bits < 0x8000 {
            bits as i16
        } else {
            (bits as i32 - 0x1_0000) as i16
        }
    }
}

impl FixedInt for i32 {
    open spec fn kind() -> Kind {
        Kind::Signed32
    }

    open spec fn number(self) -> int {
        self as int
    }

    proof fn lemma_kind() {
    }

    proof fn lemma_number(self) {
    }

    fn signed() -> (signed: bool) {
        true
    }

    fn width() -> (w: usize) {
        4
    }

    fn to_bits(self) -> (bits: u128) {
        proof {
            lemma_pow256_values();
        }
        if self >= 0 {
            self as u128
        } else {
            (self as i64 + 0x1_0000_0000) as u128
        }
    }

    fn less(self, other: Self) -> (less: bool) {
        self < other
    }

    fn calculate(self, op: Arith, other: Self) -> (res: Option<Self>) {
        match op {
            Arith::Add => self.checked_add(other),
            Arith::Sub => self.checked_sub(other),
            Arith::Mul => self.checked_mul(other),
            Arith::Div => self.checked_div(other),
            Arith::Min => Some(if self < other {
                self
            } else {
                other
            }),
            Arith::Max => Some(if self < other {
                other
            } else {
                self
            }),
        }
    }

    fn from_bits(bits: u128) -> (value: Self) {
        proof {
            lemma_pow256_values();
        }
        if bits < 0x8000_0000 {
            bits as i32
        } else {
            (bits as i64 - 0x1_0000_0000) as i32
        }
    }
}

impl FixedInt for i64 {
    open spec fn kind() -> Kind {
        Kind::Signed64
    }

    open spec fn number(self) -> int {
        self as int
    }

    proof fn lemma_kind() {
    }

    proof fn lemma_number(self) {
    }

    fn signed() -> (signed: bool) {
        true
    }

    fn width() -> (w: usize) {
        8
    }

    fn to_bits(self) -> (bits: u128) {
        proof {
            lemma_pow256_values();
        }
        if self >= 0 {
            self as u128
        } else {
            (self as i128 + 0x1_0000_0000_0000_0000) as u128
        }
    }

    fn less(self, other: Self) -> (less: bool) {
        self < other
    }

    fn calculate(self, op: Arith, other: Self) -> (res: Option<Self>) {
        match op {
            Arith::Add => self.checked_add(other),
            Arith::Sub => self.checked_sub(other),
            Arith::Mul => self.checked_mul(other),
            Arith::Div => self.checked_div(other),
            Arith::Min => Some(if self < other {
                self
            } else {
                other
            }),
            Arith::Max => Some(if self < other {
                other
            } else {
                self
            }),
        }
    }

    fn from_bits(bits: u128) -> (value: Self) {
        proof {
            lemma_pow256_values();
        }
        if bits < 0x8000_0000_0000_0000 {
            bits as i64
        } else {
            (bits as i128 - 0x1_0000_0000_0000_0000) as i64
        }
    }
}

impl FixedInt for i128 {
    open spec fn kind() -> Kind {
        Kind::Signed128
    }

    open spec fn number(self) -> int {
        self as int
    }

    proof fn lemma_kind() {
    }

    proof fn lemma_number(self) {
    }

    fn signed() -> (signed: bool) {
        true
    }

    fn width() -> (w: usize) {
        16
    }

    fn to_bits(self) -> (bits: u128) {
        proof {
            lemma_pow256_values();
        }
        if self >= 0 {
            self as u128
        } else {
            (self - i128::MIN) as u128 + 0x8000_0000_0000_0000_0000_0000_0000_0000
        }
    }

    fn less(self, other: Self) -> (less: bool) {
        self < other
    }

    fn calculate(self, op: Arith, other: Self) -> (res: Option<Self>) {
        match op {
            Arith::Add => self.checked_add(other),
            Arith::Sub => self.checked_sub(other),
            Arith::Mul => self.checked_mul(other),
            Arith::Div => self.checked_div(other),
            Arith::Min => Some(if self < other {
                self
            } else {
                other
            }),
            Arith::Max => Some(if self < other {
                other
            } else {
                self
            }),
        }
    }

    fn from_bits(bits: u128) -> (value: Self) {
        proof {
            lemma_pow256_values();
        }
        if bits < 0x8000_0000_0000_0000_0000_0000_0000_0000 {
            bits as i128
        } else {
            (bits - 0x8000_0000_0000_0000_0000_0000_0000_0000) as i128 + i128::MIN
        }
    }
}

} // verus!
