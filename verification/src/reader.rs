//! Reading values from bytes: the executable side of what bytes denote.

use vstd::prelude::*;
use vstd::slice::slice_subrange;
use crate::bigint::BigSigned;
use crate::bigint::BigUnsigned;
use crate::codec::read_length;
use crate::codec::DecodeError;
use crate::decoding::fixed_value;
use crate::decoding::lemma_parse_payload_used;
use crate::decoding::parse_array;
use crate::decoding::parse_big_elements;
use crate::decoding::parse_fixed_elements;
use crate::decoding::parse_framed;
use crate::decoding::parse_magnitude;
use crate::decoding::parse_payload;
use crate::decoding::scalar_kind;
use crate::endian::read_le;
use crate::fixed::number_values;
use crate::fixed::FixedInt;
use crate::model::Kind;
use crate::model::Value;
use crate::term::hash_values;
use crate::term::signed_big_values;
use crate::term::unsigned_big_values;

verus! {

/// Reads a length prefix and the bytes that it announces.
pub(crate) fn read_framed(bytes: &[u8]) -> (res: Result<(&[u8], usize), DecodeError>)
    ensures
        match res {
            Ok((body, used)) => parse_framed(bytes@) == Ok::<(Seq<u8>, nat), DecodeError>(
                (body@, used as nat),
            ),
            Err(e) => parse_framed(bytes@) == Err::<(Seq<u8>, nat), DecodeError>(e),
        },
{
    match read_length(bytes) {
        Err(e) => Err(e),
        Ok((n, used)) => {
            let rest = bytes.len() - used;
            if (rest as u64) < n {
                Err(DecodeError::UnexpectedEnd)
            } else {
                let end = used + n as usize;
                Ok((slice_subrange(bytes, used, end), end))
            }
        },
    }
}

/// Reads a hash of `N` bytes from the front of `bytes`.
pub(crate) fn read_hash<const N: usize>(bytes: &[u8]) -> (res: Result<[u8; N], DecodeError>)
    ensures
        match res {
            Ok(hash) => bytes@.len() >= N && hash@ == bytes@.take(N as int),
            Err(e) => e == DecodeError::UnexpectedEnd && bytes@.len() < N,
        },
{
    if bytes.len() < N {
        return Err(DecodeError::UnexpectedEnd);
    }
    let mut hash = [0u8; N];
    let mut i: usize = 0;
    while i < N
        invariant
            i <= N <= bytes.len(),
            forall|j: int| 0 <= j < i ==> hash@[j] == bytes@[j],
        decreases N - i,
    {
        hash[i] = bytes[i];
        i += 1;
    }
    assert(hash@ =~= bytes@.take(N as int));
    Ok(hash)
}

/// Reads an integer of fixed width from the front of `bytes`.
pub(crate) fn read_fixed<T: FixedInt>(bytes: &[u8]) -> (res: Result<T, DecodeError>)
    ensures
        match res {
            Ok(number) => bytes@.len() >= T::kind().width() && Value::Number(number.number())
                == fixed_value(T::kind(), bytes@.take(T::kind().width() as int)),
            Err(e) => e == DecodeError::UnexpectedEnd && bytes@.len() < T::kind().width(),
        },
{
    let width = T::width();
    if bytes.len() < width {
        return Err(DecodeError::UnexpectedEnd);
    }
    let bits = read_le(bytes, 0, width);
    let number = T::from_bits(bits);
    proof {
        T::lemma_kind();
    }
    Ok(number)
}

/// Reads a framed magnitude, which must be in its shortest form.
fn read_magnitude(bytes: &[u8]) -> (res: Result<(BigUnsigned, usize), DecodeError>)
    ensures
        match res {
            Ok((number, used)) => parse_magnitude(bytes@) == Ok::<(nat, nat), DecodeError>(
                (number@, used as nat),
            ),
            Err(e) => parse_magnitude(bytes@) == Err::<(nat, nat), DecodeError>(e),
        },
{
    match read_framed(bytes) {
        Err(e) => Err(e),
        Ok((body, used)) => if body.len() > 0 && body[body.len() - 1] == 0 {
            Err(DecodeError::InvalidBigInteger)
        } else {
            Ok((BigUnsigned::from_le_bytes(body), used))
        },
    }
}

/// Reads the framed magnitude of an unsigned integer of any size.
pub(crate) fn read_unsigned_big(bytes: &[u8]) -> (res: Result<(BigUnsigned, usize), DecodeError>)
    ensures
        match res {
            Ok((number, used)) => parse_payload(0x08, Kind::UnsignedBig, bytes@) == Ok::<
                (Value, nat),
                DecodeError,
            >((Value::Number(number@ as int), used as nat)),
            Err(e) => parse_payload(0x08, Kind::UnsignedBig, bytes@) == Err::<
                (Value, nat),
                DecodeError,
            >(e),
        },
{
    read_magnitude(bytes)
}

/// Reads what follows one of the three tags of a signed integer of any size.
pub(crate) fn read_signed_big(tag: u8, bytes: &[u8]) -> (res: Result<(BigSigned, usize), DecodeError>)
    requires
        tag == 0x0e || tag == 0x0f || tag == 0x10,
    ensures
        match res {
            Ok((number, used)) => parse_payload(tag, Kind::SignedBig, bytes@) == Ok::<
                (Value, nat),
                DecodeError,
            >((Value::Number(number@), used as nat)),
            Err(e) => parse_payload(tag, Kind::SignedBig, bytes@) == Err::<
                (Value, nat),
                DecodeError,
            >(e),
        },
{
    if tag == 0x10 {
        return Ok((BigSigned::zero(), 0));
    }
    match read_magnitude(bytes) {
        Err(e) => Err(e),
        Ok((magnitude, used)) => if magnitude.is_zero() {
            Err(DecodeError::InvalidBigInteger)
        } else {
            Ok((BigSigned::from_sign_magnitude(tag == 0x0e, magnitude), used))
        },
    }
}

/// Reads an array of hashes of `N` bytes: their number, then the hashes.
pub(crate) fn read_hash_array<const N: usize>(Ghost(kind): Ghost<Kind>, bytes: &[u8]) -> (res: Result<
    (Vec<[u8; N]>, usize),
    DecodeError,
>)
    requires
        kind.is_hash(),
        kind.width() == N,
    ensures
        match res {
            Ok((hashes, used)) => parse_array(kind, bytes@) == Ok::<(Seq<Value>, nat), DecodeError>(
                (hash_values(hashes@), used as nat),
            ),
            Err(e) => parse_array(kind, bytes@) == Err::<(Seq<Value>, nat), DecodeError>(e),
        },
{
    let (count, used) = match read_length(bytes) {
        Err(e) => {
            return Err(e);
        },
        Ok(found) => found,
    };
    let rest = bytes.len() - used;
    assert(count as int * N as int <= 0xffff_ffff_ffff_ffff * 64) by (nonlinear_arith)
        requires
            0 <= count <= 0xffff_ffff_ffff_ffff,
            0 <= N <= 64,
    ;
    let total: u128 = count as u128 * N as u128;
    if (rest as u128) < total {
        return Err(DecodeError::UnexpectedEnd);
    }
    assert(count <= total) by (nonlinear_arith)
        requires
            total == count * N,
            N >= 1,
    ;
    let count = count as usize;
    let total = total as usize;
    let end = used + total;
    let body = slice_subrange(bytes, used, end);
    let ghost elements = parse_fixed_elements(kind, body@);
    proof {
        assert((count * N) as nat / (N as nat) == count) by (nonlinear_arith)
            requires
                N > 0,
        ;
    }
    let mut hashes: Vec<[u8; N]> = Vec::new();
    let mut i: usize = 0;
    let mut at: usize = 0;
    while i < count
        invariant
            i <= count,
            N > 0,
            at == i * N,
            kind.is_hash(),
            kind.width() == N,
            body.len() == count * N,
            elements == parse_fixed_elements(kind, body@),
            elements.len() == count,
            hashes@.len() == i,
            forall|j: int| 0 <= j < i ==> Value::Bytes(hashes@[j]@) == elements[j],
        decreases count - i,
    {
        assert(i * N + N <= count * N) by (nonlinear_arith)
            requires
                i < count,
        ;
        assert((i + 1) * N == i * N + N) by (nonlinear_arith);
        let chunk = slice_subrange(body, at, at + N);
        match read_hash::<N>(chunk) {
            Ok(hash) => {
                assert(chunk@.take(N as int) =~= chunk@);
                hashes.push(hash);
            },
            Err(e) => {
                return Err(e);
            },
        }
        i += 1;
        at += N;
    }
    assert(hash_values(hashes@) =~= elements);
    Ok((hashes, end))
}

/// Reads an array of integers of fixed width: the number of bytes, then the integers.
pub(crate) fn read_fixed_array<T: FixedInt>(bytes: &[u8]) -> (res: Result<(Vec<T>, usize), DecodeError>)
    ensures
        match res {
            Ok((numbers, used)) => parse_array(T::kind(), bytes@) == Ok::<
                (Seq<Value>, nat),
                DecodeError,
            >((number_values(numbers@), used as nat)),
            Err(e) => parse_array(T::kind(), bytes@) == Err::<(Seq<Value>, nat), DecodeError>(e),
        },
{
    let (body, used) = match read_framed(bytes) {
        Err(e) => {
            return Err(e);
        },
        Ok(found) => found,
    };
    let width = T::width();
    let ghost kind = T::kind();
    proof {
        T::lemma_kind();
    }
    if body.len() % width != 0 {
        return Err(DecodeError::InvalidArrayLength);
    }
    let count = body.len() / width;
    let ghost elements = parse_fixed_elements(kind, body@);
    proof {
        assert(body@.len() == count * width) by (nonlinear_arith)
            requires
                width > 0,
                body@.len() % (width as nat) == 0,
                count == body@.len() / (width as nat),
        ;
    }
    let mut numbers: Vec<T> = Vec::new();
    let mut i: usize = 0;
    let mut at: usize = 0;
    while i < count
        invariant
            i <= count,
            width > 0,
            width <= 16,
            at == i * width,
            kind == T::kind(),
            kind.is_numeric(),
            kind.width() == width,
            body.len() == count * width,
            elements == parse_fixed_elements(kind, body@),
            elements.len() == count,
            numbers@.len() == i,
            forall|j: int| 0 <= j < i ==> Value::Number(numbers@[j].number()) == elements[j],
        decreases count - i,
    {
        assert(i * width + width <= count * width) by (nonlinear_arith)
            requires
                i < count,
        ;
        assert((i + 1) * width == i * width + width) by (nonlinear_arith);
        let chunk = slice_subrange(body, at, at + width);
        match read_fixed::<T>(chunk) {
            Ok(number) => {
                assert(chunk@.take(width as int) =~= chunk@);
                numbers.push(number);
            },
            Err(e) => {
                return Err(e);
            },
        }
        i += 1;
        at += width;
    }
    assert(number_values(numbers@) =~= elements);
    Ok((numbers, used))
}

/// What the elements of an array of integers of any size come to when `front` was read
/// already and `rest` is what the body still holds.
spec fn elements_after(kind: Kind, front: Seq<Value>, rest: Seq<u8>) -> Result<
    Seq<Value>,
    DecodeError,
> {
    match parse_big_elements(kind, rest) {
        Err(e) => Err(e),
        Ok(back) => Ok(front + back),
    }
}

/// Nothing was read yet: the elements are those of the whole body.
proof fn lemma_elements_after_start(kind: Kind, body: Seq<u8>)
    ensures
        elements_after(kind, Seq::empty(), body.skip(0)) == parse_big_elements(kind, body),
{
    assert(body.skip(0) =~= body);
    if let Ok(back) = parse_big_elements(kind, body) {
        assert(Seq::<Value>::empty() + back =~= back);
    }
}

/// The body is used up: the elements are those that were read.
proof fn lemma_elements_after_end(kind: Kind, front: Seq<Value>, body: Seq<u8>)
    ensures
        elements_after(kind, front, body.skip(body.len() as int)) == Ok::<
            Seq<Value>,
            DecodeError,
        >(front),
{
    assert(front + Seq::<Value>::empty() =~= front);
}

/// One more element was read from position `at`.
proof fn lemma_elements_after_step(
    kind: Kind,
    front: Seq<Value>,
    body: Seq<u8>,
    at: int,
    value: Value,
    taken: nat,
)
    requires
        0 <= at < body.len(),
        scalar_kind(body[at]) == Some(kind),
        parse_payload(body[at], kind, body.subrange(at + 1, body.len() as int)) == Ok::<
            (Value, nat),
            DecodeError,
        >((value, taken)),
    ensures
        at + 1 + taken <= body.len(),
        elements_after(kind, front, body.skip(at)) == elements_after(
            kind,
            front.push(value),
            body.skip(at + 1 + taken),
        ),
{
    let rest = body.skip(at);
    assert(rest.drop_first() =~= body.subrange(at + 1, body.len() as int));
    lemma_parse_payload_used(body[at], kind, rest.drop_first());
    assert(rest.skip(1 + taken as int) =~= body.skip(at + 1 + taken));
    if let Ok(back) = parse_big_elements(kind, body.skip(at + 1 + taken)) {
        assert(front + (seq![value] + back) =~= front.push(value) + back);
    }
}

/// No element can be read from position `at`.
proof fn lemma_elements_after_error(kind: Kind, front: Seq<Value>, body: Seq<u8>, at: int)
    requires
        0 <= at < body.len(),
    ensures
        scalar_kind(body[at]) != Some(kind) ==> elements_after(kind, front, body.skip(at)) == Err::<
            Seq<Value>,
            DecodeError,
        >(DecodeError::InvalidTermType),
        scalar_kind(body[at]) == Some(kind) ==> (parse_payload(
            body[at],
            kind,
            body.subrange(at + 1, body.len() as int),
        ) matches Err(e) ==> elements_after(kind, front, body.skip(at)) == Err::<
            Seq<Value>,
            DecodeError,
        >(e)),
{
    let rest = body.skip(at);
    assert(rest.drop_first() =~= body.subrange(at + 1, body.len() as int));
}

/// Reads an array of unsigned integers of any size: the number of bytes, then each
/// integer with its tag.
pub(crate) fn read_unsigned_big_array(bytes: &[u8]) -> (res: Result<(Vec<BigUnsigned>, usize), DecodeError>)
    ensures
        match res {
            Ok((numbers, used)) => parse_array(Kind::UnsignedBig, bytes@) == Ok::<
                (Seq<Value>, nat),
                DecodeError,
            >((unsigned_big_values(numbers@), used as nat)),
            Err(e) => parse_array(Kind::UnsignedBig, bytes@) == Err::<
                (Seq<Value>, nat),
                DecodeError,
            >(e),
        },
{
    let (body, used) = match read_framed(bytes) {
        Err(e) => {
            return Err(e);
        },
        Ok(found) => found,
    };
    let ghost kind = Kind::UnsignedBig;
    let mut numbers: Vec<BigUnsigned> = Vec::new();
    let mut at: usize = 0;
    proof {
        lemma_elements_after_start(kind, body@);
        assert(unsigned_big_values(numbers@) =~= Seq::<Value>::empty());
    }
    while at < body.len()
        invariant
            at <= body.len(),
            kind == Kind::UnsignedBig,
            parse_framed(bytes@) == Ok::<(Seq<u8>, nat), DecodeError>((body@, used as nat)),
            parse_big_elements(kind, body@) == elements_after(
                kind,
                unsigned_big_values(numbers@),
                body@.skip(at as int),
            ),
        decreases body.len() - at,
    {
        let ghost front = unsigned_big_values(numbers@);
        proof {
            lemma_elements_after_error(kind, front, body@, at as int);
        }
        if body[at] != 0x08 {
            return Err(DecodeError::InvalidTermType);
        }
        let tail = slice_subrange(body, at + 1, body.len());
        match read_unsigned_big(tail) {
            Err(e) => {
                return Err(e);
            },
            Ok((number, taken)) => {
                proof {
                    let value = Value::Number(number@ as int);
                    lemma_elements_after_step(kind, front, body@, at as int, value, taken as nat);
                    assert(unsigned_big_values(numbers@.push(number)) =~= front.push(value));
                }
                numbers.push(number);
                at = at + 1 + taken;
            },
        }
    }
    proof {
        lemma_elements_after_end(kind, unsigned_big_values(numbers@), body@);
    }
    Ok((numbers, used))
}

/// Reads an array of signed integers of any size: the number of bytes, then each integer
/// with its tag.
pub(crate) fn read_signed_big_array(bytes: &[u8]) -> (res: Result<(Vec<BigSigned>, usize), DecodeError>)
    ensures
        match res {
            Ok((numbers, used)) => parse_array(Kind::SignedBig, bytes@) == Ok::<
                (Seq<Value>, nat),
                DecodeError,
            >((signed_big_values(numbers@), used as nat)),
            Err(e) => parse_array(Kind::SignedBig, bytes@) == Err::<(Seq<Value>, nat), DecodeError>(
                e,
            ),
        },
{
    let (body, used) = match read_framed(bytes) {
        Err(e) => {
            return Err(e);
        },
        Ok(found) => found,
    };
    let ghost kind = Kind::SignedBig;
    let mut numbers: Vec<BigSigned> = Vec::new();
    let mut at: usize = 0;
    proof {
        lemma_elements_after_start(kind, body@);
        assert(signed_big_values(numbers@) =~= Seq::<Value>::empty());
    }
    while at < body.len()
        invariant
            at <= body.len(),
            kind == Kind::SignedBig,
            parse_framed(bytes@) == Ok::<(Seq<u8>, nat), DecodeError>((body@, used as nat)),
            parse_big_elements(kind, body@) == elements_after(
                kind,
                signed_big_values(numbers@),
                body@.skip(at as int),
            ),
        decreases body.len() - at,
    {
        let ghost front = signed_big_values(numbers@);
        proof {
            lemma_elements_after_error(kind, front, body@, at as int);
        }
        let tag = body[at];
        if !(tag == 0x0e || tag == 0x0f || tag == 0x10) {
            return Err(DecodeError::InvalidTermType);
        }
        let tail = slice_subrange(body, at + 1, body.len());
        match read_signed_big(tag, tail) {
            Err(e) => {
                return Err(e);
            },
            Ok((number, taken)) => {
                proof {
                    let value = Value::Number(number@);
                    lemma_elements_after_step(kind, front, body@, at as int, value, taken as nat);
                    assert(signed_big_values(numbers@.push(number)) =~= front.push(value));
                }
                numbers.push(number);
                at = at + 1 + taken;
            },
        }
    }
    proof {
        lemma_elements_after_end(kind, signed_big_values(numbers@), body@);
    }
    Ok((numbers, used))
}

} // verus!
