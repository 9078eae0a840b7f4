//! Arbitrary-precision integers, held as the shortest little-endian form of their magnitude.

use vstd::prelude::*;
use vstd::slice::slice_subrange;
use vstd::slice::slice_to_vec;
use crate::endian::is_minimal;
use crate::endian::le_minimal;
use crate::endian::le_value;
use crate::endian::magnitude;
use crate::endian::lemma_le_minimal;
use crate::endian::lemma_le_minimal_unique;
use crate::endian::lemma_le_value_bound;
use crate::endian::lemma_le_value_lower_bound;
use crate::endian::lemma_le_value_nonzero;
use crate::endian::lemma_le_value_order;
use crate::endian::lemma_pow256_monotonic;
use crate::endian::truncating_quotient;

verus! {

/// `next` is `prev` after adding one: the first `carried` bytes were 255 and are now zero,
/// and the byte after them went up by one, or is a new most significant 1.
spec fn is_successor(prev: Seq<u8>, next: Seq<u8>, carried: int) -> bool {
    &&& 0 <= carried <= prev.len()
    &&& forall|j: int| 0 <= j < carried ==> prev[j] == 255
    &&& if carried == prev.len() {
        next =~= Seq::new(prev.len(), |j: int| 0u8).push(1u8)
    } else {
        &&& prev[carried] < 255
        &&& next =~= Seq::new(
            prev.len(),
            |j: int|
                if j < carried {
                    0u8
                } else if j == carried {
                    (prev[j] + 1) as u8
                } else {
                    prev[j]
                },
        )
    }
}

/// A successor denotes the number after the one it is a successor of, and is in its
/// shortest form if that was.
proof fn lemma_successor(prev: Seq<u8>, next: Seq<u8>, carried: int)
    requires
        is_successor(prev, next, carried),
        is_minimal(prev),
    ensures
        le_value(next) == le_value(prev) + 1,
        is_minimal(next),
    decreases carried,
{
    assert(le_value(next) == next[0] as nat + 256 * le_value(next.drop_first()));
    if carried == 0 {
        if prev.len() == 0 {
            assert(next[0] == 1);
            assert(next.drop_first() =~= Seq::<u8>::empty());
        } else {
            assert(next[0] == prev[0] + 1);
            assert(next.drop_first() =~= prev.drop_first());
            assert(next.last() != 0);
        }
    } else {
        let p = prev.drop_first();
        let n = next.drop_first();
        if p.len() > 0 {
            assert(p.last() == prev.last());
        }
        assert(next[0] == 0);
        assert(is_successor(p, n, carried - 1));
        lemma_successor(p, n, carried - 1);
        assert(n.last() == next.last());
    }
}

/// `next` is `prev` after taking one away: the first `borrowed` bytes were zero and are now
/// 255, and the byte after them went down by one; a most significant byte that became zero
/// is gone.
spec fn is_predecessor(prev: Seq<u8>, next: Seq<u8>, borrowed: int) -> bool {
    &&& 0 <= borrowed < prev.len()
    &&& forall|j: int| 0 <= j < borrowed ==> prev[j] == 0
    &&& prev[borrowed] > 0
    &&& {
        let full = Seq::new(
            prev.len(),
            |j: int|
                if j < borrowed {
                    255u8
                } else if j == borrowed {
                    (prev[j] - 1) as u8
                } else {
                    prev[j]
                },
        );
        if borrowed == prev.len() - 1 && prev[borrowed] == 1 {
            next =~= full.drop_last()
        } else {
            next =~= full
        }
    }
}

/// A predecessor denotes the number before the one it is a predecessor of, and is in its
/// shortest form if that was.
proof fn lemma_predecessor(prev: Seq<u8>, next: Seq<u8>, borrowed: int)
    requires
        is_predecessor(prev, next, borrowed),
        is_minimal(prev),
    ensures
        le_value(next) + 1 == le_value(prev),
        is_minimal(next),
    decreases borrowed,
{
    if borrowed == 0 {
        if prev.len() == 1 && prev[0] == 1 {
            assert(next =~= Seq::<u8>::empty());
            assert(prev.drop_first() =~= Seq::<u8>::empty());
        } else {
            assert(next.drop_first() =~= prev.drop_first());
            if next.len() > 1 {
                assert(next.last() == prev.last());
            }
        }
    } else {
        let p = prev.drop_first();
        let n = next.drop_first();
        assert(p.last() == prev.last());
        assert(is_predecessor(p, n, borrowed - 1));
        lemma_predecessor(p, n, borrowed - 1);
        if n.len() > 0 {
            assert(n.last() == next.last());
        }
    }
}

/// Most significant zero bytes add nothing to the number.
proof fn lemma_le_value_take(bytes: Seq<u8>, kept: int)
    requires
        0 <= kept <= bytes.len(),
        forall|j: int| kept <= j < bytes.len() ==> bytes[j] == 0,
    ensures
        le_value(bytes.take(kept)) == le_value(bytes),
    decreases bytes.len(),
{
    if bytes.len() > 0 {
        let rest = bytes.drop_first();
        if kept == 0 {
            lemma_le_value_take(rest, 0);
            assert(rest.take(0) =~= bytes.take(0));
        } else {
            lemma_le_value_take(rest, kept - 1);
            assert(bytes.take(kept).drop_first() =~= rest.take(kept - 1));
        }
    }
}

/// The bytes of `value`, least significant first, up to its last byte that is not zero.
fn push_minimal(out: &mut Vec<u8>, value: u128)
    ensures
        final(out)@ == old(out)@ + le_minimal(value as nat),
    decreases value,
{
    if value > 0 {
        out.push((value % 256) as u8);
        push_minimal(out, value / 256);
    }
    assert(final(out)@ =~= old(out)@ + le_minimal(value as nat));
}

/// The little-endian bytes of the number after the one that `bytes` denote.
fn successor_bytes(bytes: &Vec<u8>) -> (next: Vec<u8>)
    requires
        is_minimal(bytes@),
    ensures
        is_minimal(next@),
        le_value(next@) == le_value(bytes@) + 1,
{
    let mut next: Vec<u8> = Vec::new();
    let mut i: usize = 0;
    while i < bytes.len() && bytes[i] == 255
        invariant
            i <= bytes.len(),
            next@ =~= Seq::new(i as nat, |j: int| 0u8),
            forall|j: int| 0 <= j < i ==> bytes[j] == 255,
        decreases bytes.len() - i,
    {
        next.push(0);
        i += 1;
    }
    let ghost carried = i as int;
    if i == bytes.len() {
        next.push(1);
    } else {
        next.push(bytes[i] + 1);
        i += 1;
        while i < bytes.len()
            invariant
                carried < i <= bytes.len(),
                bytes[carried] < 255,
                next@ =~= Seq::new(
                    i as nat,
                    |j: int|
                        if j < carried {
                            0u8
                        } else if j == carried {
                            (bytes[j] + 1) as u8
                        } else {
                            bytes[j]
                        },
                ),
            decreases bytes.len() - i,
        {
            next.push(bytes[i]);
            i += 1;
        }
    }
    proof {
        assert(is_successor(bytes@, next@, carried));
        lemma_successor(bytes@, next@, carried);
    }
    next
}

/// The little-endian bytes of the number before the one that `bytes` denote.
fn predecessor_bytes(bytes: &Vec<u8>) -> (next: Vec<u8>)
    requires
        is_minimal(bytes@),
        le_value(bytes@) > 0,
    ensures
        is_minimal(next@),
        le_value(next@) + 1 == le_value(bytes@),
{
    let mut next: Vec<u8> = Vec::new();
    let mut i: usize = 0;
    assert(bytes@.len() > 0);
    while bytes[i] == 0
        invariant
            i < bytes.len(),
            bytes@.last() != 0,
            next@ =~= Seq::new(i as nat, |j: int| 255u8),
            forall|j: int| 0 <= j < i ==> bytes[j] == 0,
        decreases bytes.len() - i,
    {
        next.push(255);
        i += 1;
    }
    let ghost borrowed = i as int;
    if !(i == bytes.len() - 1 && bytes[i] == 1) {
        next.push(bytes[i] - 1);
        i += 1;
        while i < bytes.len()
            invariant
                borrowed < i <= bytes.len(),
                bytes[borrowed] > 0,
                next@ =~= Seq::new(
                    i as nat,
                    |j: int|
                        if j < borrowed {
                            255u8
                        } else if j == borrowed {
                            (bytes[j] - 1) as u8
                        } else {
                            bytes[j]
                        },
                ),
            decreases bytes.len() - i,
        {
            next.push(bytes[i]);
            i += 1;
        }
    }
    proof {
        assert(is_predecessor(bytes@, next@, borrowed));
        lemma_predecessor(bytes@, next@, borrowed);
    }
    next
}

/// Whether the number that `a` denotes is below the number that `b` denotes.
fn bytes_less(a: &Vec<u8>, b: &Vec<u8>) -> (less: bool)
    requires
        is_minimal(a@),
        is_minimal(b@),
    ensures
        less == (le_value(a@) < le_value(b@)),
{
    proof {
        lemma_le_value_bound(a@);
        lemma_le_value_bound(b@);
    }
    if a.len() < b.len() {
        proof {
            lemma_le_value_lower_bound(b@);
            lemma_pow256_monotonic(a@.len(), (b@.len() - 1) as nat);
        }
        return true;
    }
    if a.len() > b.len() {
        proof {
            lemma_le_value_lower_bound(a@);
            lemma_pow256_monotonic(b@.len(), (a@.len() - 1) as nat);
        }
        return false;
    }
    let mut i: usize = a.len();
    while i > 0
        invariant
            i <= a.len(),
            a.len() == b.len(),
            forall|j: int| i <= j < a.len() ==> a[j] == b[j],
        decreases i,
    {
        i -= 1;
        if a[i] < b[i] {
            proof {
                lemma_le_value_order(a@, b@, i as int);
            }
            return true;
        }
        if a[i] > b[i] {
            proof {
                lemma_le_value_order(b@, a@, i as int);
            }
            return false;
        }
    }
    assert(a@ =~= b@);
    false
}

/// Whether `a` and `b` denote one number.
fn bytes_equal(a: &Vec<u8>, b: &Vec<u8>) -> (equal: bool)
    requires
        is_minimal(a@),
        is_minimal(b@),
    ensures
        equal == (le_value(a@) == le_value(b@)),
{
    proof {
        lemma_le_minimal_unique(a@);
        lemma_le_minimal_unique(b@);
    }
    if a.len() != b.len() {
        return false;
    }
    let mut i: usize = 0;
    while i < a.len()
        invariant
            i <= a.len(),
            a.len() == b.len(),
            le_minimal(le_value(a@)) == a@,
            le_minimal(le_value(b@)) == b@,
            forall|j: int| 0 <= j < i ==> a[j] == b[j],
        decreases a.len() - i,
    {
        if a[i] != b[i] {
            return false;
        }
        i += 1;
    }
    assert(a@ =~= b@);
    true
}

/// The most bytes that a magnitude may have to take part in a sum, a difference, a product
/// or a quotient.
pub const MAX_BIG_BYTES: usize = 0x10_0000;

/// `+` of `ibig::UBig` on the numbers that `a` and `b` denote, which `UBig::from_le_bytes`
/// makes of them: the sum, as `UBig::to_le_bytes` gives it, in its shortest form. Numbers of
/// `MAX_BIG_BYTES` bytes and their sum are far below the largest number that `UBig` holds.
#[verifier::external_body]
fn ubig_add(a: &Vec<u8>, b: &Vec<u8>) -> (sum: Vec<u8>)
    requires
        a@.len() <= MAX_BIG_BYTES,
        b@.len() <= MAX_BIG_BYTES,
    ensures
        sum@ == le_minimal(le_value(a@) + le_value(b@)),
{
    (ibig::UBig::from_le_bytes(a) + ibig::UBig::from_le_bytes(b)).to_le_bytes()
}

/// `-` of `ibig::UBig` on the numbers that `a` and `b` denote, the first of which is not
/// the smaller: the difference in its shortest form.
#[verifier::external_body]
fn ubig_sub(a: &Vec<u8>, b: &Vec<u8>) -> (difference: Vec<u8>)
    requires
        a@.len() <= MAX_BIG_BYTES,
        b@.len() <= MAX_BIG_BYTES,
        le_value(a@) >= le_value(b@),
    ensures
        difference@ == le_minimal((le_value(a@) - le_value(b@)) as nat),
{
    (ibig::UBig::from_le_bytes(a) - ibig::UBig::from_le_bytes(b)).to_le_bytes()
}

/// `*` of `ibig::UBig` on the numbers that `a` and `b` denote: the product in its shortest
/// form. Numbers of `MAX_BIG_BYTES` bytes and their product are far below the largest
/// number that `UBig` holds.
#[verifier::external_body]
fn ubig_mul(a: &Vec<u8>, b: &Vec<u8>) -> (product: Vec<u8>)
    requires
        a@.len() <= MAX_BIG_BYTES,
        b@.len() <= MAX_BIG_BYTES,
    ensures
        product@ == le_minimal(le_value(a@) * le_value(b@)),
{
    (ibig::UBig::from_le_bytes(a) * ibig::UBig::from_le_bytes(b)).to_le_bytes()
}

/// `/` of `ibig::UBig` on the numbers that `a` and `b` denote, the second of which is not
/// zero: the quotient, rounded down, in its shortest form.
#[verifier::external_body]
fn ubig_div(a: &Vec<u8>, b: &Vec<u8>) -> (quotient: Vec<u8>)
    requires
        a@.len() <= MAX_BIG_BYTES,
        b@.len() <= MAX_BIG_BYTES,
        le_value(b@) > 0,
    ensures
        quotient@ == le_minimal(le_value(a@) / le_value(b@)),
{
    (ibig::UBig::from_le_bytes(a) / ibig::UBig::from_le_bytes(b)).to_le_bytes()
}

/// An integer of any size that is not negative.
#[derive(Debug, PartialEq, Eq)]
pub struct BigUnsigned {
    magnitude: Vec<u8>,
}

impl View for BigUnsigned {
    type V = nat;

    closed spec fn view(&self) -> nat {
        le_value(self.magnitude@)
    }
}

impl Clone for BigUnsigned {
    fn clone(&self) -> (copy: Self)
        ensures
            copy@ == self@,
    {
        proof {
            use_type_invariant(self);
        }
        BigUnsigned { magnitude: self.magnitude.clone() }
    }
}

impl BigUnsigned {
    #[verifier::type_invariant]
    spec fn well_formed(self) -> bool {
        is_minimal(self.magnitude@)
    }

    /// Zero.
    pub fn zero() -> (number: Self)
        ensures
            number@ == 0,
    {
        BigUnsigned { magnitude: Vec::new() }
    }

    /// The number `value`.
    pub fn from_u128(value: u128) -> (number: Self)
        ensures
            number@ == value,
    {
        let mut magnitude: Vec<u8> = Vec::new();
        push_minimal(&mut magnitude, value);
        proof {
            lemma_le_minimal(value as nat);
            assert(magnitude@ =~= le_minimal(value as nat));
        }
        BigUnsigned { magnitude }
    }

    /// The number that `bytes` denote, least significant byte first. Most significant zero
    /// bytes are allowed and change nothing.
    pub fn from_le_bytes(bytes: &[u8]) -> (number: Self)
        ensures
            number@ == le_value(bytes@),
    {
        let mut kept: usize = bytes.len();
        while kept > 0 && bytes[kept - 1] == 0
            invariant
                kept <= bytes.len(),
                forall|j: int| kept <= j < bytes.len() ==> bytes[j] == 0,
            decreases kept,
        {
            kept -= 1;
        }
        let magnitude = slice_to_vec(slice_subrange(bytes, 0, kept));
        proof {
            lemma_le_value_take(bytes@, kept as int);
            assert(magnitude@ =~= bytes@.take(kept as int));
        }
        BigUnsigned { magnitude }
    }

    /// The shortest little-endian form of the number: no byte at all for zero.
    pub fn to_le_bytes(&self) -> (bytes: Vec<u8>)
        ensures
            bytes@ == le_minimal(self@),
    {
        proof {
            use_type_invariant(self);
            lemma_le_minimal_unique(self.magnitude@);
        }
        self.magnitude.clone()
    }

    /// The number of bytes of the shortest little-endian form.
    pub fn byte_len(&self) -> (len: usize)
        ensures
            len == le_minimal(self@).len(),
    {
        proof {
            use_type_invariant(self);
            lemma_le_minimal_unique(self.magnitude@);
        }
        self.magnitude.len()
    }

    /// Whether the number is zero.
    pub fn is_zero(&self) -> (zero: bool)
        ensures
            zero == (self@ == 0),
    {
        proof {
            use_type_invariant(self);
            if self.magnitude@.len() > 0 {
                lemma_le_value_nonzero(self.magnitude@);
            }
        }
        self.magnitude.len() == 0
    }

    /// Whether the number is one.
    pub fn is_one(&self) -> (one: bool)
        ensures
            one == (self@ == 1),
    {
        proof {
            use_type_invariant(self);
            let m = self.magnitude@;
            if m.len() > 0 {
                let rest = m.drop_first();
                assert(le_value(m) == m[0] as nat + 256 * le_value(rest));
                if rest.len() > 0 {
                    assert(rest.last() == m.last());
                    lemma_le_value_nonzero(rest);
                }
            }
        }
        self.magnitude.len() == 1 && self.magnitude[0] == 1
    }

    /// The number as a machine integer, where it is small enough for one.
    pub fn to_u128(&self) -> (res: Option<u128>)
        ensures
            match res {
                Some(value) => value == self@,
                None => self@ > u128::MAX,
            },
    {
        proof {
            use_type_invariant(self);
            crate::endian::lemma_pow256_values();
        }
        if self.magnitude.len() <= 16 {
            let value = crate::endian::read_le(self.magnitude.as_slice(), 0, self.magnitude.len());
            assert(self.magnitude@.subrange(0, self.magnitude@.len() as int) =~= self.magnitude@);
            Some(value)
        } else {
            proof {
                lemma_le_value_lower_bound(self.magnitude@);
                lemma_pow256_monotonic(16, (self.magnitude@.len() - 1) as nat);
            }
            None
        }
    }

    /// Whether the number is short enough to take part in arithmetic.
    pub open spec fn is_arithmetic(self) -> bool {
        le_minimal(self@).len() <= MAX_BIG_BYTES
    }

    /// Whether the number is short enough to take part in arithmetic.
    pub fn fits_arithmetic(&self) -> (fits: bool)
        ensures
            fits == self.is_arithmetic(),
    {
        self.byte_len() <= MAX_BIG_BYTES
    }

    /// The sum of the two numbers.
    pub fn plus(&self, other: &BigUnsigned) -> (sum: BigUnsigned)
        requires
            self.is_arithmetic(),
            other.is_arithmetic(),
        ensures
            sum@ == self@ + other@,
    {
        proof {
            use_type_invariant(self);
            use_type_invariant(other);
            lemma_le_minimal_unique(self.magnitude@);
            lemma_le_minimal_unique(other.magnitude@);
            lemma_le_minimal(self@ + other@);
        }
        BigUnsigned { magnitude: ubig_add(&self.magnitude, &other.magnitude) }
    }

    /// The number less `other`, which is not the larger.
    pub fn minus(&self, other: &BigUnsigned) -> (difference: BigUnsigned)
        requires
            self.is_arithmetic(),
            other.is_arithmetic(),
            self@ >= other@,
        ensures
            difference@ == self@ - other@,
    {
        proof {
            use_type_invariant(self);
            use_type_invariant(other);
            lemma_le_minimal_unique(self.magnitude@);
            lemma_le_minimal_unique(other.magnitude@);
            lemma_le_minimal((self@ - other@) as nat);
        }
        BigUnsigned { magnitude: ubig_sub(&self.magnitude, &other.magnitude) }
    }

    /// The product of the two numbers.
    pub fn times(&self, other: &BigUnsigned) -> (product: BigUnsigned)
        requires
            self.is_arithmetic(),
            other.is_arithmetic(),
        ensures
            product@ == self@ * other@,
    {
        proof {
            use_type_invariant(self);
            use_type_invariant(other);
            lemma_le_minimal_unique(self.magnitude@);
            lemma_le_minimal_unique(other.magnitude@);
            lemma_le_minimal(self@ * other@);
        }
        BigUnsigned { magnitude: ubig_mul(&self.magnitude, &other.magnitude) }
    }

    /// The number divided by `other`, which is not zero, rounded down.
    pub fn quotient(&self, other: &BigUnsigned) -> (quotient: BigUnsigned)
        requires
            self.is_arithmetic(),
            other.is_arithmetic(),
            other@ > 0,
        ensures
            quotient@ == self@ / other@,
    {
        proof {
            use_type_invariant(self);
            use_type_invariant(other);
            lemma_le_minimal_unique(self.magnitude@);
            lemma_le_minimal_unique(other.magnitude@);
            lemma_le_minimal(self@ / other@);
        }
        BigUnsigned { magnitude: ubig_div(&self.magnitude, &other.magnitude) }
    }

    /// Whether the two numbers are one number.
    pub fn equals(&self, other: &BigUnsigned) -> (equal: bool)
        ensures
            equal == (self@ == other@),
    {
        proof {
            use_type_invariant(self);
            use_type_invariant(other);
        }
        bytes_equal(&self.magnitude, &other.magnitude)
    }

    /// Whether the number is below `other`.
    pub fn less_than(&self, other: &BigUnsigned) -> (less: bool)
        ensures
            less == (self@ < other@),
    {
        proof {
            use_type_invariant(self);
            use_type_invariant(other);
        }
        bytes_less(&self.magnitude, &other.magnitude)
    }

    /// Adds one. There is no largest number, so this always works.
    pub fn increment(&mut self)
        ensures
            final(self)@ == old(self)@ + 1,
    {
        proof {
            use_type_invariant(&*self);
        }
        self.magnitude = successor_bytes(&self.magnitude);
    }

    /// Takes one away from a number that is not zero.
    pub fn decrement(&mut self)
        requires
            old(self)@ > 0,
        ensures
            final(self)@ == old(self)@ - 1,
    {
        proof {
            use_type_invariant(&*self);
        }
        self.magnitude = predecessor_bytes(&self.magnitude);
    }
}

/// An integer of any size, held as a sign and a magnitude. Zero is never negative.
#[derive(Debug, PartialEq, Eq)]
pub struct BigSigned {
    negative: bool,
    magnitude: BigUnsigned,
}

impl View for BigSigned {
    type V = int;

    closed spec fn view(&self) -> int {
        if self.negative {
            -(self.magnitude@ as int)
        } else {
            self.magnitude@ as int
        }
    }
}

impl Clone for BigSigned {
    fn clone(&self) -> (copy: Self)
        ensures
            copy@ == self@,
    {
        proof {
            use_type_invariant(self);
        }
        BigSigned { negative: self.negative, magnitude: self.magnitude.clone() }
    }
}

impl BigSigned {
    #[verifier::type_invariant]
    spec fn well_formed(self) -> bool {
        self.negative ==> self.magnitude@ > 0
    }

    /// Zero.
    pub fn zero() -> (number: Self)
        ensures
            number@ == 0,
    {
        BigSigned { negative: false, magnitude: BigUnsigned::zero() }
    }

    /// The number of the given magnitude, below zero if `negative` is set and the
    /// magnitude is not zero.
    pub fn from_sign_magnitude(negative: bool, magnitude: BigUnsigned) -> (number: Self)
        ensures
            number@ == if negative {
                -(magnitude@ as int)
            } else {
                magnitude@ as int
            },
    {
        let negative = negative && !magnitude.is_zero();
        BigSigned { negative, magnitude }
    }

    /// The number `value`.
    pub fn from_i128(value: i128) -> (number: Self)
        ensures
            number@ == value,
    {
        if value >= 0 {
            BigSigned { negative: false, magnitude: BigUnsigned::from_u128(value as u128) }
        } else if value == i128::MIN {
            let mut magnitude = BigUnsigned::from_u128(i128::MAX as u128);
            magnitude.increment();
            BigSigned { negative: true, magnitude }
        } else {
            BigSigned { negative: true, magnitude: BigUnsigned::from_u128((-value) as u128) }
        }
    }

    /// Whether the number is below zero.
    pub fn is_negative(&self) -> (negative: bool)
        ensures
            negative == (self@ < 0),
    {
        proof {
            use_type_invariant(self);
        }
        self.negative
    }

    /// Whether the number is zero.
    pub fn is_zero(&self) -> (zero: bool)
        ensures
            zero == (self@ == 0),
    {
        proof {
            use_type_invariant(self);
        }
        self.magnitude.is_zero()
    }

    /// The distance of the number from zero.
    pub fn magnitude(&self) -> (magnitude: &BigUnsigned)
        ensures
            magnitude@ == if self@ < 0 {
                -self@
            } else {
                self@
            },
    {
        proof {
            use_type_invariant(self);
        }
        &self.magnitude
    }

    /// Whether the number is one.
    pub fn is_one(&self) -> (one: bool)
        ensures
            one == (self@ == 1),
    {
        proof {
            use_type_invariant(self);
        }
        !self.negative && self.magnitude.is_one()
    }

    /// Whether the number is short enough to take part in arithmetic.
    pub open spec fn is_arithmetic(self) -> bool {
        le_minimal(magnitude(self@)).len() <= MAX_BIG_BYTES
    }

    /// Whether the number is short enough to take part in arithmetic.
    pub fn fits_arithmetic(&self) -> (fits: bool)
        ensures
            fits == self.is_arithmetic(),
    {
        proof {
            use_type_invariant(self);
        }
        self.magnitude.fits_arithmetic()
    }

    /// The number with the other sign.
    pub fn negated(&self) -> (negated: BigSigned)
        ensures
            negated@ == -self@,
    {
        proof {
            use_type_invariant(self);
        }
        BigSigned::from_sign_magnitude(!self.negative, self.magnitude.clone())
    }

    /// The sum of the two numbers.
    pub fn plus(&self, other: &BigSigned) -> (sum: BigSigned)
        requires
            self.is_arithmetic(),
            other.is_arithmetic(),
        ensures
            sum@ == self@ + other@,
    {
        proof {
            use_type_invariant(self);
            use_type_invariant(other);
        }
        if self.negative == other.negative {
            BigSigned::from_sign_magnitude(self.negative, self.magnitude.plus(&other.magnitude))
        } else if self.magnitude.less_than(&other.magnitude) {
            BigSigned::from_sign_magnitude(other.negative, other.magnitude.minus(&self.magnitude))
        } else {
            BigSigned::from_sign_magnitude(self.negative, self.magnitude.minus(&other.magnitude))
        }
    }

    /// The number less `other`.
    pub fn minus(&self, other: &BigSigned) -> (difference: BigSigned)
        requires
            self.is_arithmetic(),
            other.is_arithmetic(),
        ensures
            difference@ == self@ - other@,
    {
        let opposite = other.negated();
        self.plus(&opposite)
    }

    /// The product of the two numbers.
    pub fn times(&self, other: &BigSigned) -> (product: BigSigned)
        requires
            self.is_arithmetic(),
            other.is_arithmetic(),
        ensures
            product@ == self@ * other@,
    {
        proof {
            use_type_invariant(self);
            use_type_invariant(other);
            let a = self.magnitude@ as int;
            let b = other.magnitude@ as int;
            assert((-a) * b == -(a * b)) by (nonlinear_arith);
            assert(a * (-b) == -(a * b)) by (nonlinear_arith);
            assert((-a) * (-b) == a * b) by (nonlinear_arith);
        }
        BigSigned::from_sign_magnitude(
            self.negative != other.negative,
            self.magnitude.times(&other.magnitude),
        )
    }

    /// The number divided by `other`, which is not zero, rounded towards zero.
    pub fn quotient(&self, other: &BigSigned) -> (quotient: BigSigned)
        requires
            self.is_arithmetic(),
            other.is_arithmetic(),
            other@ != 0,
        ensures
            quotient@ == truncating_quotient(self@, other@),
    {
        proof {
            use_type_invariant(self);
            use_type_invariant(other);
        }
        BigSigned::from_sign_magnitude(
            self.negative != other.negative,
            self.magnitude.quotient(&other.magnitude),
        )
    }

    /// Whether the two numbers are one number.
    pub fn equals(&self, other: &BigSigned) -> (equal: bool)
        ensures
            equal == (self@ == other@),
    {
        proof {
            use_type_invariant(self);
            use_type_invariant(other);
        }
        self.negative == other.negative && self.magnitude.equals(&other.magnitude)
    }

    /// Whether the number is below `other`.
    pub fn less_than(&self, other: &BigSigned) -> (less: bool)
        ensures
            less == (self@ < other@),
    {
        proof {
            use_type_invariant(self);
            use_type_invariant(other);
        }
        if self.negative {
            if other.negative {
                other.magnitude.less_than(&self.magnitude)
            } else {
                true
            }
        } else {
            if other.negative {
                false
            } else {
                self.magnitude.less_than(&other.magnitude)
            }
        }
    }

    /// Adds one. There is no largest number, so this always works.
    pub fn increment(&mut self)
        ensures
            final(self)@ == old(self)@ + 1,
    {
        proof {
            use_type_invariant(&*self);
        }
        let mut magnitude = self.magnitude.clone();
        if self.negative {
            magnitude.decrement();
            let negative = !magnitude.is_zero();
            *self = BigSigned { negative, magnitude };
        } else {
            magnitude.increment();
            *self = BigSigned { negative: false, magnitude };
        }
    }

    /// Takes one away. There is no smallest number, so this always works.
    pub fn decrement(&mut self)
        ensures
            final(self)@ == old(self)@ - 1,
    {
        proof {
            use_type_invariant(&*self);
        }
        let mut magnitude = self.magnitude.clone();
        if self.negative || magnitude.is_zero() {
            magnitude.increment();
            *self = BigSigned { negative: true, magnitude };
        } else {
            magnitude.decrement();
            *self = BigSigned { negative: false, magnitude };
        }
    }
}

} // verus!
