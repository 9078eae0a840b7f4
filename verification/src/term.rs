//! The values that the machine holds on its stack.

use vstd::prelude::*;
use vstd::slice::slice_to_vec;
use crate::bigint::BigSigned;
use crate::bigint::BigUnsigned;
use crate::endian::le_minimal;
use crate::endian::lemma_le_minimal_len;
use crate::endian::magnitude;
use crate::fixed::number_values;
use crate::model::elements_size;
use crate::model::lemma_elements_size_take;
use crate::model::lemma_fixed_elements_size;
use crate::model::EMPTY_VEC_HEAP_SIZE;
use crate::model::WORD_SIZE;
use crate::model::Kind;
use crate::model::TermModel;
use crate::model::Value;

verus! {

/// A typed value: a hash, an integer of fixed width or of any size, or an array of values
/// of one of these kinds.
#[derive(Debug, PartialEq, Eq)]
pub enum VmTerm {
    Hash160([u8; 20]),
    Hash256([u8; 32]),
    Hash512([u8; 64]),
    Unsigned8(u8),
    Unsigned16(u16),
    Unsigned32(u32),
    Unsigned64(u64),
    Unsigned128(u128),
    UnsignedBig(BigUnsigned),
    Signed8(i8),
    Signed16(i16),
    Signed32(i32),
    Signed64(i64),
    Signed128(i128),
    SignedBig(BigSigned),
    Hash160Array(Vec<[u8; 20]>),
    Hash256Array(Vec<[u8; 32]>),
    Hash512Array(Vec<[u8; 64]>),
    Unsigned8Array(Vec<u8>),
    Unsigned16Array(Vec<u16>),
    Unsigned32Array(Vec<u32>),
    Unsigned64Array(Vec<u64>),
    Unsigned128Array(Vec<u128>),
    UnsignedBigArray(Vec<BigUnsigned>),
    Signed8Array(Vec<i8>),
    Signed16Array(Vec<i16>),
    Signed32Array(Vec<i32>),
    Signed64Array(Vec<i64>),
    Signed128Array(Vec<i128>),
    SignedBigArray(Vec<BigSigned>),
}

/// The values of an array of hashes.
pub open spec fn hash_values<const N: usize>(hashes: Seq<[u8; N]>) -> Seq<Value> {
    Seq::new(hashes.len(), |i: int| Value::Bytes(hashes[i]@))
}

/// The values of an array of unsigned integers of any size.
pub open spec fn unsigned_big_values(numbers: Seq<BigUnsigned>) -> Seq<Value> {
    Seq::new(numbers.len(), |i: int| Value::Number(numbers[i]@ as int))
}

/// The values of an array of signed integers of any size.
pub open spec fn signed_big_values(numbers: Seq<BigSigned>) -> Seq<Value> {
    Seq::new(numbers.len(), |i: int| Value::Number(numbers[i]@))
}

impl View for VmTerm {
    type V = TermModel;

    open spec fn view(&self) -> TermModel {
        match *self {
            VmTerm::Hash160(h) => TermModel::Scalar(Kind::Hash160, Value::Bytes(h@)),
            VmTerm::Hash256(h) => TermModel::Scalar(Kind::Hash256, Value::Bytes(h@)),
            VmTerm::Hash512(h) => TermModel::Scalar(Kind::Hash512, Value::Bytes(h@)),
            VmTerm::Unsigned8(v) => TermModel::Scalar(Kind::Unsigned8, Value::Number(v as int)),
            VmTerm::Unsigned16(v) => TermModel::Scalar(Kind::Unsigned16, Value::Number(v as int)),
            VmTerm::Unsigned32(v) => TermModel::Scalar(Kind::Unsigned32, Value::Number(v as int)),
            VmTerm::Unsigned64(v) => TermModel::Scalar(Kind::Unsigned64, Value::Number(v as int)),
            VmTerm::Unsigned128(v) => TermModel::Scalar(
                Kind::Unsigned128,
                Value::Number(v as int),
            ),
            VmTerm::UnsignedBig(v) => TermModel::Scalar(
                Kind::UnsignedBig,
                Value::Number(v@ as int),
            ),
            VmTerm::Signed8(v) => TermModel::Scalar(Kind::Signed8, Value::Number(v as int)),
            VmTerm::Signed16(v) => TermModel::Scalar(Kind::Signed16, Value::Number(v as int)),
            VmTerm::Signed32(v) => TermModel::Scalar(Kind::Signed32, Value::Number(v as int)),
            VmTerm::Signed64(v) => TermModel::Scalar(Kind::Signed64, Value::Number(v as int)),
            VmTerm::Signed128(v) => TermModel::Scalar(Kind::Signed128, Value::Number(v as int)),
            VmTerm::SignedBig(v) => TermModel::Scalar(Kind::SignedBig, Value::Number(v@)),
            VmTerm::Hash160Array(a) => TermModel::Array(Kind::Hash160, hash_values(a@)),
            VmTerm::Hash256Array(a) => TermModel::Array(Kind::Hash256, hash_values(a@)),
            VmTerm::Hash512Array(a) => TermModel::Array(Kind::Hash512, hash_values(a@)),
            VmTerm::Unsigned8Array(a) => TermModel::Array(Kind::Unsigned8, number_values(a@)),
            VmTerm::Unsigned16Array(a) => TermModel::Array(Kind::Unsigned16, number_values(a@)),
            VmTerm::Unsigned32Array(a) => TermModel::Array(Kind::Unsigned32, number_values(a@)),
            VmTerm::Unsigned64Array(a) => TermModel::Array(Kind::Unsigned64, number_values(a@)),
            VmTerm::Unsigned128Array(a) => TermModel::Array(Kind::Unsigned128, number_values(a@)),
            VmTerm::UnsignedBigArray(a) => TermModel::Array(
                Kind::UnsignedBig,
                unsigned_big_values(a@),
            ),
            VmTerm::Signed8Array(a) => TermModel::Array(Kind::Signed8, number_values(a@)),
            VmTerm::Signed16Array(a) => TermModel::Array(Kind::Signed16, number_values(a@)),
            VmTerm::Signed32Array(a) => TermModel::Array(Kind::Signed32, number_values(a@)),
            VmTerm::Signed64Array(a) => TermModel::Array(Kind::Signed64, number_values(a@)),
            VmTerm::Signed128Array(a) => TermModel::Array(Kind::Signed128, number_values(a@)),
            VmTerm::SignedBigArray(a) => TermModel::Array(Kind::SignedBig, signed_big_values(a@)),
        }
    }
}

/// The model of every term is well formed: a hash has the length of its kind and a number
/// lies in the range of its kind.
pub proof fn lemma_view_well_formed(term: VmTerm)
    ensures
        term@.well_formed(),
{
    broadcast use vstd::array::group_array_axioms;

}

/// An array has no more elements than a machine word counts.
pub proof fn lemma_array_len_bounded(term: VmTerm)
    ensures
        term@ matches TermModel::Array(_, elements) ==> elements.len() <= usize::MAX,
{
    match term {
        VmTerm::Hash160Array(a) => {
            assert(a@.len() == a.len());
        },
        VmTerm::Hash256Array(a) => {
            assert(a@.len() == a.len());
        },
        VmTerm::Hash512Array(a) => {
            assert(a@.len() == a.len());
        },
        VmTerm::Unsigned8Array(a) => {
            assert(a@.len() == a.len());
        },
        VmTerm::Unsigned16Array(a) => {
            assert(a@.len() == a.len());
        },
        VmTerm::Unsigned32Array(a) => {
            assert(a@.len() == a.len());
        },
        VmTerm::Unsigned64Array(a) => {
            assert(a@.len() == a.len());
        },
        VmTerm::Unsigned128Array(a) => {
            assert(a@.len() == a.len());
        },
        VmTerm::UnsignedBigArray(a) => {
            assert(a@.len() == a.len());
        },
        VmTerm::Signed8Array(a) => {
            assert(a@.len() == a.len());
        },
        VmTerm::Signed16Array(a) => {
            assert(a@.len() == a.len());
        },
        VmTerm::Signed32Array(a) => {
            assert(a@.len() == a.len());
        },
        VmTerm::Signed64Array(a) => {
            assert(a@.len() == a.len());
        },
        VmTerm::Signed128Array(a) => {
            assert(a@.len() == a.len());
        },
        VmTerm::SignedBigArray(a) => {
            assert(a@.len() == a.len());
        },
        _ => {},
    }
}

/// A copy of a vector of unsigned integers of any size.
fn clone_unsigned_bigs(numbers: &Vec<BigUnsigned>) -> (copy: Vec<BigUnsigned>)
    ensures
        unsigned_big_values(copy@) == unsigned_big_values(numbers@),
{
    let mut copy: Vec<BigUnsigned> = Vec::new();
    let mut i: usize = 0;
    while i < numbers.len()
        invariant
            i <= numbers.len(),
            copy@.len() == i,
            forall|j: int| 0 <= j < i ==> copy@[j]@ == numbers@[j]@,
        decreases numbers.len() - i,
    {
        copy.push(numbers[i].clone());
        i += 1;
    }
    assert(unsigned_big_values(copy@) =~= unsigned_big_values(numbers@));
    copy
}

/// A copy of a vector of signed integers of any size.
fn clone_signed_bigs(numbers: &Vec<BigSigned>) -> (copy: Vec<BigSigned>)
    ensures
        signed_big_values(copy@) == signed_big_values(numbers@),
{
    let mut copy: Vec<BigSigned> = Vec::new();
    let mut i: usize = 0;
    while i < numbers.len()
        invariant
            i <= numbers.len(),
            copy@.len() == i,
            forall|j: int| 0 <= j < i ==> copy@[j]@ == numbers@[j]@,
        decreases numbers.len() - i,
    {
        copy.push(numbers[i].clone());
        i += 1;
    }
    assert(signed_big_values(copy@) =~= signed_big_values(numbers@));
    copy
}

impl Clone for VmTerm {
    fn clone(&self) -> (copy: Self)
        ensures
            copy@ == self@,
    {
        match self {
            Self::Hash160(v) => Self::Hash160(*v),
            Self::Hash256(v) => Self::Hash256(*v),
            Self::Hash512(v) => Self::Hash512(*v),
            Self::Unsigned8(v) => Self::Unsigned8(*v),
            Self::Unsigned16(v) => Self::Unsigned16(*v),
            Self::Unsigned32(v) => Self::Unsigned32(*v),
            Self::Unsigned64(v) => Self::Unsigned64(*v),
            Self::Unsigned128(v) => Self::Unsigned128(*v),
            Self::UnsignedBig(v) => Self::UnsignedBig(v.clone()),
            Self::Signed8(v) => Self::Signed8(*v),
            Self::Signed16(v) => Self::Signed16(*v),
            Self::Signed32(v) => Self::Signed32(*v),
            Self::Signed64(v) => Self::Signed64(*v),
            Self::Signed128(v) => Self::Signed128(*v),
            Self::SignedBig(v) => Self::SignedBig(v.clone()),
            Self::Hash160Array(v) => Self::Hash160Array(slice_to_vec(v.as_slice())),
            Self::Hash256Array(v) => Self::Hash256Array(slice_to_vec(v.as_slice())),
            Self::Hash512Array(v) => Self::Hash512Array(slice_to_vec(v.as_slice())),
            Self::Unsigned8Array(v) => Self::Unsigned8Array(slice_to_vec(v.as_slice())),
            Self::Unsigned16Array(v) => Self::Unsigned16Array(slice_to_vec(v.as_slice())),
            Self::Unsigned32Array(v) => Self::Unsigned32Array(slice_to_vec(v.as_slice())),
            Self::Unsigned64Array(v) => Self::Unsigned64Array(slice_to_vec(v.as_slice())),
            Self::Unsigned128Array(v) => Self::Unsigned128Array(slice_to_vec(v.as_slice())),
            Self::UnsignedBigArray(v) => Self::UnsignedBigArray(clone_unsigned_bigs(v)),
            Self::Signed8Array(v) => Self::Signed8Array(slice_to_vec(v.as_slice())),
            Self::Signed16Array(v) => Self::Signed16Array(slice_to_vec(v.as_slice())),
            Self::Signed32Array(v) => Self::Signed32Array(slice_to_vec(v.as_slice())),
            Self::Signed64Array(v) => Self::Signed64Array(slice_to_vec(v.as_slice())),
            Self::Signed128Array(v) => Self::Signed128Array(slice_to_vec(v.as_slice())),
            Self::SignedBigArray(v) => Self::SignedBigArray(clone_signed_bigs(v)),
        }
    }
}

/// `size`, or the largest 64-bit number where `size` is beyond it.
pub open spec fn capped(size: nat) -> nat {
    if size <= u64::MAX {
        size
    } else {
        u64::MAX as nat
    }
}

/// The sum of two capped sizes, capped.
pub(crate) fn add_capped(a: u64, b: u64, Ghost(x): Ghost<nat>, Ghost(y): Ghost<nat>) -> (sum: u64)
    requires
        a == capped(x),
        b == capped(y),
    ensures
        sum == capped(x + y),
{
    match a.checked_add(b) {
        Some(sum) => sum,
        None => u64::MAX,
    }
}

/// The capped virtual size of an array of `len` elements of `width` bytes each.
fn capped_fixed_array_size(
    Ghost(kind): Ghost<Kind>,
    Ghost(elements): Ghost<Seq<Value>>,
    len: usize,
    width: u8,
) -> (size: u64)
    requires
        !kind.is_big(),
        kind.width() == width,
        elements.len() == len,
    ensures
        size == capped(TermModel::Array(kind, elements).virtual_size()),
{
    proof {
        lemma_fixed_elements_size(kind, elements);
        assert(len * width <= 0xffff_ffff_ffff_ffff * 0xff) by (nonlinear_arith)
            requires
                len <= 0xffff_ffff_ffff_ffff,
                width <= 0xff,
        ;
    }
    let bytes: u128 = len as u128 * width as u128 + EMPTY_VEC_HEAP_SIZE as u128;
    if bytes > u64::MAX as u128 {
        u64::MAX
    } else {
        bytes as u64
    }
}

/// The capped virtual size of an array of unsigned integers of any size.
fn capped_unsigned_big_array_size(numbers: &Vec<BigUnsigned>) -> (size: u64)
    ensures
        size == capped(
            TermModel::Array(Kind::UnsignedBig, unsigned_big_values(numbers@)).virtual_size(),
        ),
{
    let ghost kind = Kind::UnsignedBig;
    let ghost elements = unsigned_big_values(numbers@);
    let mut size: u64 = EMPTY_VEC_HEAP_SIZE as u64;
    let mut i: usize = 0;
    while i < numbers.len()
        invariant
            i <= numbers.len(),
            kind == Kind::UnsignedBig,
            elements == unsigned_big_values(numbers@),
            size == capped(EMPTY_VEC_HEAP_SIZE as nat + elements_size(kind, elements.take(i as int))),
        decreases numbers.len() - i,
    {
        proof {
            lemma_elements_size_take(kind, elements, i as int);
            lemma_le_minimal_len(numbers@[i as int]@);
        }
        let ghost element_size = elements[i as int].size(kind);
        let element = add_capped(
            numbers[i].byte_len() as u64,
            EMPTY_VEC_HEAP_SIZE as u64,
            Ghost(le_minimal(numbers@[i as int]@).len()),
            Ghost(EMPTY_VEC_HEAP_SIZE as nat),
        );
        size = add_capped(
            size,
            element,
            Ghost(EMPTY_VEC_HEAP_SIZE as nat + elements_size(kind, elements.take(i as int))),
            Ghost(element_size),
        );
        i += 1;
    }
    assert(elements.take(i as int) =~= elements);
    size
}

/// The capped virtual size of an array of signed integers of any size.
fn capped_signed_big_array_size(numbers: &Vec<BigSigned>) -> (size: u64)
    ensures
        size == capped(
            TermModel::Array(Kind::SignedBig, signed_big_values(numbers@)).virtual_size(),
        ),
{
    let ghost kind = Kind::SignedBig;
    let ghost elements = signed_big_values(numbers@);
    let mut size: u64 = EMPTY_VEC_HEAP_SIZE as u64;
    let mut i: usize = 0;
    while i < numbers.len()
        invariant
            i <= numbers.len(),
            kind == Kind::SignedBig,
            elements == signed_big_values(numbers@),
            size == capped(EMPTY_VEC_HEAP_SIZE as nat + elements_size(kind, elements.take(i as int))),
        decreases numbers.len() - i,
    {
        proof {
            lemma_elements_size_take(kind, elements, i as int);
            lemma_le_minimal_len(magnitude(numbers@[i as int]@));
        }
        let ghost element_size = elements[i as int].size(kind);
        let element = add_capped(
            numbers[i].magnitude().byte_len() as u64,
            (EMPTY_VEC_HEAP_SIZE + WORD_SIZE) as u64,
            Ghost(le_minimal(magnitude(numbers@[i as int]@)).len()),
            Ghost((EMPTY_VEC_HEAP_SIZE + WORD_SIZE) as nat),
        );
        size = add_capped(
            size,
            element,
            Ghost(EMPTY_VEC_HEAP_SIZE as nat + elements_size(kind, elements.take(i as int))),
            Ghost(element_size),
        );
        i += 1;
    }
    assert(elements.take(i as int) =~= elements);
    size
}

impl VmTerm {
    /// Whether the term is an integer scalar that holds the number one. A hash and an
    /// array never do.
    pub fn equals_1(self) -> (one: bool)
        ensures
            one == self@.is_one(),
    {
        match self {
            Self::Unsigned8(val) => val == 1_u8,
            Self::Unsigned16(val) => val == 1_u16,
            Self::Unsigned32(val) => val == 1_u32,
            Self::Unsigned64(val) => val == 1_u64,
            Self::Unsigned128(val) => val == 1_u128,
            Self::UnsignedBig(val) => val.is_one(),
            Self::Signed8(val) => val == 1_i8,
            Self::Signed16(val) => val == 1_i16,
            Self::Signed32(val) => val == 1_i32,
            Self::Signed64(val) => val == 1_i64,
            Self::Signed128(val) => val == 1_i128,
            Self::SignedBig(val) => val.is_one(),
            _ => false,
        }
    }

    /// Adds one to an integer scalar. Where the sum is no number of the term's kind, and
    /// where the term is a hash or an array, the term stays as it is and `None` comes back.
    /// An integer of any size has no largest number: adding one to it always works.
    pub fn add_one(&mut self) -> (res: Option<()>)
        ensures
            match old(self)@.shifted(1) {
                Some(next) => res is Some && final(self)@ == next,
                None => res is None && final(self)@ == old(self)@,
            },
            old(self)@ is Scalar && old(self)@.kind().is_big() ==> res is Some,
    {
        match self {
            Self::Unsigned8(val) => match val.checked_add(1) {
                Some(next) => {
                    *val = next;
                },
                None => {
                    return None;
                },
            },
            Self::Unsigned16(val) => match val.checked_add(1) {
                Some(next) => {
                    *val = next;
                },
                None => {
                    return None;
                },
            },
            Self::Unsigned32(val) => match val.checked_add(1) {
                Some(next) => {
                    *val = next;
                },
                None => {
                    return None;
                },
            },
            Self::Unsigned64(val) => match val.checked_add(1) {
                Some(next) => {
                    *val = next;
                },
                None => {
                    return None;
                },
            },
            Self::Unsigned128(val) => match val.checked_add(1) {
                Some(next) => {
                    *val = next;
                },
                None => {
                    return None;
                },
            },
            Self::UnsignedBig(val) => {
                val.increment();
            },
            Self::Signed8(val) => match val.checked_add(1) {
                Some(next) => {
                    *val = next;
                },
                None => {
                    return None;
                },
            },
            Self::Signed16(val) => match val.checked_add(1) {
                Some(next) => {
                    *val = next;
                },
                None => {
                    return None;
                },
            },
            Self::Signed32(val) => match val.checked_add(1) {
                Some(next) => {
                    *val = next;
                },
                None => {
                    return None;
                },
            },
            Self::Signed64(val) => match val.checked_add(1) {
                Some(next) => {
                    *val = next;
                },
                None => {
                    return None;
                },
            },
            Self::Signed128(val) => match val.checked_add(1) {
                Some(next) => {
                    *val = next;
                },
                None => {
                    return None;
                },
            },
            Self::SignedBig(val) => {
                val.increment();
            },
            _ => {
                return None;
            },
        }
        Some(())
    }

    /// Takes one away from an integer scalar. Where the difference is no number of the
    /// term's kind of fixed width, and where the term is a hash or an array, the term stays
    /// as it is and `None` comes back. An unsigned integer of any size must not be zero.
    pub fn sub_one(&mut self) -> (res: Option<()>)
        requires
            old(self)@ != TermModel::Scalar(Kind::UnsignedBig, Value::Number(0)),
        ensures
            match old(self)@.shifted(-1) {
                Some(next) => res is Some && final(self)@ == next,
                None => res is None && final(self)@ == old(self)@,
            },
            old(self)@ is Scalar && old(self)@.kind().is_big() ==> res is Some,
    {
        match self {
            Self::Unsigned8(val) => match val.checked_sub(1) {
                Some(next) => {
                    *val = next;
                },
                None => {
                    return None;
                },
            },
            Self::Unsigned16(val) => match val.checked_sub(1) {
                Some(next) => {
                    *val = next;
                },
                None => {
                    return None;
                },
            },
            Self::Unsigned32(val) => match val.checked_sub(1) {
                Some(next) => {
                    *val = next;
                },
                None => {
                    return None;
                },
            },
            Self::Unsigned64(val) => match val.checked_sub(1) {
                Some(next) => {
                    *val = next;
                },
                None => {
                    return None;
                },
            },
            Self::Unsigned128(val) => match val.checked_sub(1) {
                Some(next) => {
                    *val = next;
                },
                None => {
                    return None;
                },
            },
            Self::UnsignedBig(val) => {
                val.decrement();
            },
            Self::Signed8(val) => match val.checked_sub(1) {
                Some(next) => {
                    *val = next;
                },
                None => {
                    return None;
                },
            },
            Self::Signed16(val) => match val.checked_sub(1) {
                Some(next) => {
                    *val = next;
                },
                None => {
                    return None;
                },
            },
            Self::Signed32(val) => match val.checked_sub(1) {
                Some(next) => {
                    *val = next;
                },
                None => {
                    return None;
                },
            },
            Self::Signed64(val) => match val.checked_sub(1) {
                Some(next) => {
                    *val = next;
                },
                None => {
                    return None;
                },
            },
            Self::Signed128(val) => match val.checked_sub(1) {
                Some(next) => {
                    *val = next;
                },
                None => {
                    return None;
                },
            },
            Self::SignedBig(val) => {
                val.decrement();
            },
            _ => {
                return None;
            },
        }
        Some(())
    }

    /// The virtual size of the term in bytes, where that fits the machine's word: the width
    /// of a value of fixed width; for an array three words and the sizes of its elements;
    /// for an integer of any size three words and the bytes of its magnitude, and one word
    /// more for the sign where the kind has one.
    pub fn size(&self) -> (size: usize)
        requires
            self@.virtual_size() <= usize::MAX,
        ensures
            size == self@.virtual_size(),
    {
        self.capped_size() as usize
    }

    /// The virtual size of the term in bytes as a 64-bit number, or the largest such number
    /// where the size is beyond it.
    pub fn capped_size(&self) -> (size: u64)
        ensures
            size == capped(self@.virtual_size()),
    {
        match self {
            Self::Hash160(_) => 20,
            Self::Hash256(_) => 32,
            Self::Hash512(_) => 64,
            Self::Unsigned8(_) | Self::Signed8(_) => 1,
            Self::Unsigned16(_) | Self::Signed16(_) => 2,
            Self::Unsigned32(_) | Self::Signed32(_) => 4,
            Self::Unsigned64(_) | Self::Signed64(_) => 8,
            Self::Unsigned128(_) | Self::Signed128(_) => 16,
            Self::UnsignedBig(v) => {
                proof {
                    lemma_le_minimal_len(v@);
                }
                add_capped(
                    v.byte_len() as u64,
                    EMPTY_VEC_HEAP_SIZE as u64,
                    Ghost(le_minimal(v@).len()),
                    Ghost(EMPTY_VEC_HEAP_SIZE as nat),
                )
            },
            Self::SignedBig(v) => {
                proof {
                    lemma_le_minimal_len(magnitude(v@));
                }
                add_capped(
                    v.magnitude().byte_len() as u64,
                    (EMPTY_VEC_HEAP_SIZE + WORD_SIZE) as u64,
                    Ghost(le_minimal(magnitude(v@)).len()),
                    Ghost((EMPTY_VEC_HEAP_SIZE + WORD_SIZE) as nat),
                )
            },
            Self::Hash160Array(val) => capped_fixed_array_size(Ghost(Kind::Hash160), Ghost(hash_values(val@)), val.len(), 20),
            Self::Hash256Array(val) => capped_fixed_array_size(Ghost(Kind::Hash256), Ghost(hash_values(val@)), val.len(), 32),
            Self::Hash512Array(val) => capped_fixed_array_size(Ghost(Kind::Hash512), Ghost(hash_values(val@)), val.len(), 64),
            Self::Unsigned8Array(val) => capped_fixed_array_size(Ghost(Kind::Unsigned8), Ghost(number_values(val@)), val.len(), 1),
            Self::Signed8Array(val) => capped_fixed_array_size(Ghost(Kind::Signed8), Ghost(number_values(val@)), val.len(), 1),
            Self::Unsigned16Array(val) => capped_fixed_array_size(Ghost(Kind::Unsigned16), Ghost(number_values(val@)), val.len(), 2),
            Self::Signed16Array(val) => capped_fixed_array_size(Ghost(Kind::Signed16), Ghost(number_values(val@)), val.len(), 2),
            Self::Unsigned32Array(val) => capped_fixed_array_size(Ghost(Kind::Unsigned32), Ghost(number_values(val@)), val.len(), 4),
            Self::Signed32Array(val) => capped_fixed_array_size(Ghost(Kind::Signed32), Ghost(number_values(val@)), val.len(), 4),
            Self::Unsigned64Array(val) => capped_fixed_array_size(Ghost(Kind::Unsigned64), Ghost(number_values(val@)), val.len(), 8),
            Self::Signed64Array(val) => capped_fixed_array_size(Ghost(Kind::Signed64), Ghost(number_values(val@)), val.len(), 8),
            Self::Unsigned128Array(val) => capped_fixed_array_size(Ghost(Kind::Unsigned128), Ghost(number_values(val@)), val.len(), 16),
            Self::Signed128Array(val) => capped_fixed_array_size(Ghost(Kind::Signed128), Ghost(number_values(val@)), val.len(), 16),
            Self::UnsignedBigArray(val) => capped_unsigned_big_array_size(val),
            Self::SignedBigArray(val) => capped_signed_big_array_size(val),
        }
    }
}

} // verus!
