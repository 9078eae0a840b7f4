//! The canonical bytes of a term: one tag byte that selects the variant, then the value.

use vstd::prelude::*;
use crate::bigint::BigSigned;
use crate::bigint::BigUnsigned;
use crate::codec::bincode_hashes;
use crate::codec::frame;
use crate::codec::hash_parts;
use crate::codec::length_prefix;
use crate::codec::Encode;
use crate::codec::WriteError;
use crate::endian::le_bytes;
use crate::endian::le_minimal;
use crate::endian::magnitude;
use crate::endian::push_le;
use crate::endian::twos_complement;
use crate::fixed::number_values;
use crate::fixed::FixedInt;
use crate::model::Kind;
use crate::model::TermModel;
use crate::model::Value;
use crate::term::hash_values;
use crate::term::signed_big_values;
use crate::term::unsigned_big_values;
use crate::term::VmTerm;

verus! {

/// The tag byte of a scalar. A signed integer of any size has three: one below zero, one
/// above, and one for zero.
pub open spec fn scalar_tag(kind: Kind, value: Value) -> u8 {
    match kind {
        Kind::Hash160 => 0x00,
        Kind::Hash256 => 0x01,
        Kind::Hash512 => 0x02,
        Kind::Unsigned8 => 0x03,
        Kind::Unsigned16 => 0x04,
        Kind::Unsigned32 => 0x05,
        Kind::Unsigned64 => 0x06,
        Kind::Unsigned128 => 0x07,
        Kind::UnsignedBig => 0x08,
        Kind::Signed8 => 0x09,
        Kind::Signed16 => 0x0a,
        Kind::Signed32 => 0x0b,
        Kind::Signed64 => 0x0c,
        Kind::Signed128 => 0x0d,
        Kind::SignedBig => match value {
            Value::Number(v) if v < 0 => 0x0e,
            Value::Number(v) if v > 0 => 0x0f,
            _ => 0x10,
        },
    }
}

/// The tag byte of an array.
pub open spec fn array_tag(kind: Kind) -> u8 {
    match kind {
        Kind::Hash160 => 0x13,
        Kind::Hash256 => 0x14,
        Kind::Hash512 => 0x15,
        Kind::Unsigned8 => 0x16,
        Kind::Unsigned16 => 0x17,
        Kind::Unsigned32 => 0x18,
        Kind::Unsigned64 => 0x19,
        Kind::Unsigned128 => 0x1a,
        Kind::UnsignedBig => 0x1b,
        Kind::Signed8 => 0x1c,
        Kind::Signed16 => 0x1d,
        Kind::Signed32 => 0x1e,
        Kind::Signed64 => 0x1f,
        Kind::Signed128 => 0x20,
        Kind::SignedBig => 0x21,
    }
}

/// Bytes behind the prefix that announces how many they are.
pub open spec fn framed(bytes: Seq<u8>) -> Seq<u8> {
    length_prefix(bytes.len()) + bytes
}

/// The bytes of a value without its tag: a hash as it is; an integer of fixed width in
/// little-endian two's complement over its width; an integer of any size as the framed
/// shortest little-endian form of its magnitude, and nothing at all for a signed zero.
pub open spec fn payload(kind: Kind, value: Value) -> Seq<u8> {
    match value {
        Value::Bytes(bytes) => bytes,
        Value::Number(v) => match kind {
            Kind::UnsignedBig => framed(le_minimal(magnitude(v))),
            Kind::SignedBig => if v == 0 {
                Seq::empty()
            } else {
                framed(le_minimal(magnitude(v)))
            },
            _ => le_bytes(twos_complement(v, kind.width()), kind.width()),
        },
    }
}

/// The canonical bytes of a scalar.
pub open spec fn scalar_encoding(kind: Kind, value: Value) -> Seq<u8> {
    seq![scalar_tag(kind, value)] + payload(kind, value)
}

/// The bytes of one element of an array: a value of fixed width stands without a tag, an
/// integer of any size in its canonical bytes.
pub open spec fn element_bytes(kind: Kind, value: Value) -> Seq<u8> {
    if kind.is_big() {
        scalar_encoding(kind, value)
    } else {
        payload(kind, value)
    }
}

/// The bytes of each element, in order.
pub open spec fn elements_parts(kind: Kind, elements: Seq<Value>) -> Seq<Seq<u8>> {
    Seq::new(elements.len(), |i: int| element_bytes(kind, elements[i]))
}

/// The bytes of the elements, one after the other.
pub open spec fn elements_bytes(kind: Kind, elements: Seq<Value>) -> Seq<u8> {
    elements_parts(kind, elements).flatten()
}

/// The number that the length prefix of an array announces: the number of hashes in an
/// array of hashes, the number of bytes of the elements in every other array.
pub open spec fn announced_length(kind: Kind, elements: Seq<Value>) -> nat {
    if kind.is_hash() {
        elements.len()
    } else {
        elements_bytes(kind, elements).len()
    }
}

/// The canonical bytes of an array.
pub open spec fn array_encoding(kind: Kind, elements: Seq<Value>) -> Seq<u8> {
    seq![array_tag(kind)] + length_prefix(announced_length(kind, elements)) + elements_bytes(
        kind,
        elements,
    )
}

impl TermModel {
    /// The canonical bytes of the term.
    pub open spec fn encoding(self) -> Seq<u8> {
        match self {
            TermModel::Scalar(kind, value) => scalar_encoding(kind, value),
            TermModel::Array(kind, elements) => array_encoding(kind, elements),
        }
    }
}

/// The bytes of a sequence with one more element are the bytes of the sequence, then those
/// of the element.
pub proof fn lemma_elements_bytes_push(kind: Kind, elements: Seq<Value>, last: Value)
    ensures
        elements_bytes(kind, elements.push(last)) == elements_bytes(kind, elements) + element_bytes(
            kind,
            last,
        ),
{
    let parts = elements_parts(kind, elements);
    assert(elements_parts(kind, elements.push(last)) =~= parts.push(element_bytes(kind, last)));
    parts.lemma_flatten_push(element_bytes(kind, last));
}

/// The bytes of the hashes of an array are the hashes, one after the other.
pub proof fn lemma_hash_elements_bytes<const N: usize>(kind: Kind, hashes: Seq<[u8; N]>)
    requires
        kind.is_hash(),
    ensures
        elements_bytes(kind, hash_values(hashes)) == hash_parts(hashes).flatten(),
{
    assert(elements_parts(kind, hash_values(hashes)) =~= hash_parts(hashes));
}

/// The bytes of an array of bytes are the bytes.
pub proof fn lemma_byte_elements_bytes(bytes: Seq<u8>)
    ensures
        elements_bytes(Kind::Unsigned8, number_values(bytes)) == bytes,
    decreases bytes.len(),
{
    let kind = Kind::Unsigned8;
    if bytes.len() == 0 {
        assert(elements_parts(kind, number_values(bytes)) =~= Seq::<Seq<u8>>::empty());
    } else {
        let front = bytes.drop_last();
        let last = Value::Number(bytes.last() as int);
        lemma_byte_elements_bytes(front);
        assert(number_values(bytes) =~= number_values(front).push(last));
        lemma_elements_bytes_push(kind, number_values(front), last);
        reveal_with_fuel(le_bytes, 2);
        assert(element_bytes(kind, last) =~= seq![bytes.last()]);
        assert(bytes =~= front + seq![bytes.last()]);
    }
}

/// Appends `bytes` to `out`.
fn push_all(out: &mut Vec<u8>, bytes: &[u8])
    ensures
        final(out)@ == old(out)@ + bytes@,
{
    let mut i: usize = 0;
    while i < bytes.len()
        invariant
            i <= bytes.len(),
            out@ == old(out)@ + bytes@.take(i as int),
        decreases bytes.len() - i,
    {
        out.push(bytes[i]);
        i += 1;
        assert(out@ =~= old(out)@ + bytes@.take(i as int));
    }
    assert(bytes@.take(bytes.len() as int) =~= bytes@);
}

/// A tag byte and the bytes after it.
fn tagged(tag: u8, mut rest: Vec<u8>) -> (out: Vec<u8>)
    ensures
        out@ == seq![tag] + rest@,
{
    let mut out: Vec<u8> = Vec::new();
    out.push(tag);
    out.append(&mut rest);
    out
}

fn encode_hash<const N: usize>(tag: u8, hash: &[u8; N]) -> (out: Vec<u8>)
    ensures
        out@ == seq![tag] + hash@,
{
    let mut out: Vec<u8> = Vec::new();
    out.push(tag);
    push_all(&mut out, hash.as_slice());
    out
}

fn encode_fixed<T: FixedInt>(tag: u8, number: T) -> (out: Vec<u8>)
    requires
        tag == scalar_tag(T::kind(), Value::Number(number.number())),
    ensures
        out@ == scalar_encoding(T::kind(), Value::Number(number.number())),
{
    proof {
        T::lemma_kind();
        number.lemma_number();
    }
    let mut out: Vec<u8> = Vec::new();
    out.push(tag);
    push_le(&mut out, number.to_bits(), T::width());
    out
}

fn encode_unsigned_big(number: &BigUnsigned) -> (res: Result<Vec<u8>, WriteError>)
    ensures
        res matches Ok(out) && out@ == scalar_encoding(
            Kind::UnsignedBig,
            Value::Number(number@ as int),
        ),
{
    let bytes = number.to_le_bytes();
    match frame(&bytes) {
        Ok(rest) => Ok(tagged(0x08, rest)),
        Err(e) => Err(e),
    }
}

fn encode_signed_big(number: &BigSigned) -> (res: Result<Vec<u8>, WriteError>)
    ensures
        res matches Ok(out) && out@ == scalar_encoding(Kind::SignedBig, Value::Number(number@)),
{
    if number.is_zero() {
        Ok(tagged(0x10, Vec::new()))
    } else {
        let tag: u8 = if number.is_negative() {
            0x0e
        } else {
            0x0f
        };
        let bytes = number.magnitude().to_le_bytes();
        match frame(&bytes) {
            Ok(rest) => Ok(tagged(tag, rest)),
            Err(e) => Err(e),
        }
    }
}

fn encode_hash_array<const N: usize>(tag: u8, Ghost(kind): Ghost<Kind>, hashes: &Vec<[u8; N]>) -> (res:
    Result<Vec<u8>, WriteError>)
    requires
        kind.is_hash(),
        tag == array_tag(kind),
    ensures
        res matches Ok(out) && out@ == array_encoding(kind, hash_values(hashes@)),
{
    proof {
        lemma_hash_elements_bytes(kind, hashes@);
    }
    match bincode_hashes(hashes) {
        Ok(rest) => Ok(tagged(tag, rest)),
        Err(_) => Err(WriteError::Writer),
    }
}

fn encode_byte_array(bytes: &Vec<u8>) -> (res: Result<Vec<u8>, WriteError>)
    ensures
        res matches Ok(out) && out@ == array_encoding(Kind::Unsigned8, number_values(bytes@)),
{
    proof {
        lemma_byte_elements_bytes(bytes@);
    }
    match frame(bytes) {
        Ok(rest) => Ok(tagged(0x16, rest)),
        Err(e) => Err(e),
    }
}

fn encode_fixed_array<T: FixedInt>(tag: u8, numbers: &Vec<T>) -> (res: Result<Vec<u8>, WriteError>)
    requires
        tag == array_tag(T::kind()),
    ensures
        res matches Ok(out) && out@ == array_encoding(T::kind(), number_values(numbers@)),
{
    let ghost elements = number_values(numbers@);
    let mut body: Vec<u8> = Vec::new();
    let mut i: usize = 0;
    proof {
        assert(elements_parts(T::kind(), elements.take(0)) =~= Seq::<Seq<u8>>::empty());
    }
    while i < numbers.len()
        invariant
            i <= numbers.len(),
            elements == number_values(numbers@),
            body@ == elements_bytes(T::kind(), elements.take(i as int)),
        decreases numbers.len() - i,
    {
        let number = numbers[i];
        proof {
            T::lemma_kind();
        number.lemma_number();
            lemma_elements_bytes_push(T::kind(), elements.take(i as int), elements[i as int]);
            assert(elements.take(i + 1) =~= elements.take(i as int).push(elements[i as int]));
        }
        push_le(&mut body, number.to_bits(), T::width());
        i += 1;
    }
    proof {
        assert(elements.take(i as int) =~= elements);
        T::lemma_kind();
    }
    match frame(&body) {
        Ok(rest) => Ok(tagged(tag, rest)),
        Err(e) => Err(e),
    }
}

fn encode_unsigned_big_array(numbers: &Vec<BigUnsigned>) -> (res: Result<Vec<u8>, WriteError>)
    ensures
        res matches Ok(out) && out@ == array_encoding(
            Kind::UnsignedBig,
            unsigned_big_values(numbers@),
        ),
{
    let ghost kind = Kind::UnsignedBig;
    let ghost elements = unsigned_big_values(numbers@);
    let mut body: Vec<u8> = Vec::new();
    let mut i: usize = 0;
    proof {
        assert(elements_parts(kind, elements.take(0)) =~= Seq::<Seq<u8>>::empty());
    }
    while i < numbers.len()
        invariant
            i <= numbers.len(),
            kind == Kind::UnsignedBig,
            elements == unsigned_big_values(numbers@),
            body@ == elements_bytes(kind, elements.take(i as int)),
        decreases numbers.len() - i,
    {
        proof {
            lemma_elements_bytes_push(kind, elements.take(i as int), elements[i as int]);
            assert(elements.take(i + 1) =~= elements.take(i as int).push(elements[i as int]));
        }
        match encode_unsigned_big(&numbers[i]) {
            Ok(mut element) => {
                body.append(&mut element);
            },
            Err(e) => {
                return Err(e);
            },
        }
        i += 1;
    }
    proof {
        assert(elements.take(i as int) =~= elements);
    }
    match frame(&body) {
        Ok(rest) => Ok(tagged(0x1b, rest)),
        Err(e) => Err(e),
    }
}

fn encode_signed_big_array(numbers: &Vec<BigSigned>) -> (res: Result<Vec<u8>, WriteError>)
    ensures
        res matches Ok(out) && out@ == array_encoding(Kind::SignedBig, signed_big_values(numbers@)),
{
    let ghost kind = Kind::SignedBig;
    let ghost elements = signed_big_values(numbers@);
    let mut body: Vec<u8> = Vec::new();
    let mut i: usize = 0;
    proof {
        assert(elements_parts(kind, elements.take(0)) =~= Seq::<Seq<u8>>::empty());
    }
    while i < numbers.len()
        invariant
            i <= numbers.len(),
            kind == Kind::SignedBig,
            elements == signed_big_values(numbers@),
            body@ == elements_bytes(kind, elements.take(i as int)),
        decreases numbers.len() - i,
    {
        proof {
            lemma_elements_bytes_push(kind, elements.take(i as int), elements[i as int]);
            assert(elements.take(i + 1) =~= elements.take(i as int).push(elements[i as int]));
        }
        match encode_signed_big(&numbers[i]) {
            Ok(mut element) => {
                body.append(&mut element);
            },
            Err(e) => {
                return Err(e);
            },
        }
        i += 1;
    }
    proof {
        assert(elements.take(i as int) =~= elements);
    }
    match frame(&body) {
        Ok(rest) => Ok(tagged(0x21, rest)),
        Err(e) => Err(e),
    }
}

impl Encode for VmTerm {
    open spec fn encoding(&self) -> Seq<u8> {
        self@.encoding()
    }

    fn encode(&self) -> (res: Result<Vec<u8>, WriteError>) {
        match self {
            Self::Hash160(v) => Ok(encode_hash(0x00, v)),
            Self::Hash256(v) => Ok(encode_hash(0x01, v)),
            Self::Hash512(v) => Ok(encode_hash(0x02, v)),
            Self::Unsigned8(v) => Ok(encode_fixed(0x03, *v)),
            Self::Unsigned16(v) => Ok(encode_fixed(0x04, *v)),
            Self::Unsigned32(v) => Ok(encode_fixed(0x05, *v)),
            Self::Unsigned64(v) => Ok(encode_fixed(0x06, *v)),
            Self::Unsigned128(v) => Ok(encode_fixed(0x07, *v)),
            Self::UnsignedBig(v) => encode_unsigned_big(v),
            Self::Signed8(v) => Ok(encode_fixed(0x09, *v)),
            Self::Signed16(v) => Ok(encode_fixed(0x0a, *v)),
            Self::Signed32(v) => Ok(encode_fixed(0x0b, *v)),
            Self::Signed64(v) => Ok(encode_fixed(0x0c, *v)),
            Self::Signed128(v) => Ok(encode_fixed(0x0d, *v)),
            Self::SignedBig(v) => encode_signed_big(v),
            Self::Hash160Array(v) => encode_hash_array(0x13, Ghost(Kind::Hash160), v),
            Self::Hash256Array(v) => encode_hash_array(0x14, Ghost(Kind::Hash256), v),
            Self::Hash512Array(v) => encode_hash_array(0x15, Ghost(Kind::Hash512), v),
            Self::Unsigned8Array(v) => encode_byte_array(v),
            Self::Unsigned16Array(v) => encode_fixed_array(0x17, v),
            Self::Unsigned32Array(v) => encode_fixed_array(0x18, v),
            Self::Unsigned64Array(v) => encode_fixed_array(0x19, v),
            Self::Unsigned128Array(v) => encode_fixed_array(0x1a, v),
            Self::UnsignedBigArray(v) => encode_unsigned_big_array(v),
            Self::Signed8Array(v) => encode_fixed_array(0x1c, v),
            Self::Signed16Array(v) => encode_fixed_array(0x1d, v),
            Self::Signed32Array(v) => encode_fixed_array(0x1e, v),
            Self::Signed64Array(v) => encode_fixed_array(0x1f, v),
            Self::Signed128Array(v) => encode_fixed_array(0x20, v),
            Self::SignedBigArray(v) => encode_signed_big_array(v),
        }
    }
}

impl VmTerm {
    /// The canonical bytes of the term.
    pub fn to_bytes(&self) -> (bytes: Vec<u8>)
        ensures
            bytes@ == self@.encoding(),
    {
        crate::codec::encode_to_vec(self).unwrap()
    }
}

} // verus!
