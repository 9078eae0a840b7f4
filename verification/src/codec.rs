//! The canonical byte format: what can be written and read, the errors of reading, and the
//! length prefix that every sequence of variable length carries.

use vstd::prelude::*;
use crate::endian::le_bytes;
use crate::endian::le_value;
use crate::endian::lemma_le_bytes_len;
use crate::endian::lemma_le_bytes_of_le_value;
use crate::endian::lemma_le_value_bound;
use crate::endian::lemma_le_value_of_le_bytes;
use crate::endian::lemma_pow256_values;
use crate::endian::read_le;

verus! {

/// Why bytes could not be read as a value.
#[derive(Clone, Copy, Debug, PartialEq, Eq, Structural)]
pub enum DecodeError {
    /// The bytes end before the value does.
    UnexpectedEnd,
    /// The leading byte is the tag of no term.
    InvalidTermType,
    /// The byte is the code of no instruction.
    InvalidOpcode,
    /// The first byte of a length prefix is none that a length starts with, or the length
    /// stands in a wider form than it needs.
    InvalidLength,
    /// The bytes of an array of fixed-width elements are no whole number of elements.
    InvalidArrayLength,
    /// The magnitude of a big integer has a most significant zero byte, or a signed big
    /// integer is tagged as negative or positive and its magnitude is zero.
    InvalidBigInteger,
}

/// Why a value could not be written.
#[derive(Clone, Copy, Debug, PartialEq, Eq, Structural)]
pub enum WriteError {
    /// The byte writer reported an error.
    Writer,
}

/// A value with a canonical byte form.
pub trait Encode {
    /// The canonical bytes of the value.
    spec fn encoding(&self) -> Seq<u8>;

    fn encode(&self) -> (res: Result<Vec<u8>, WriteError>)
        ensures
            res matches Ok(bytes) && bytes@ == self.encoding(),
    ;
}

/// A value that can be read from the front of a byte string.
pub trait Decode: Sized + View {
    /// What the front of `bytes` denotes, and how many bytes that takes, or why it denotes
    /// nothing.
    spec fn decoding(bytes: Seq<u8>) -> Result<(Self::V, nat), DecodeError>;

    fn decode(bytes: &[u8]) -> (res: Result<(Self, usize), DecodeError>)
        ensures
            match res {
                Ok((value, used)) => Self::decoding(bytes@) == Ok::<(Self::V, nat), DecodeError>(
                    (value@, used as nat),
                ),
                Err(e) => Self::decoding(bytes@) == Err::<(Self::V, nat), DecodeError>(e),
            },
    ;
}

/// The canonical bytes of `val`.
pub fn encode_to_vec<T: Encode>(val: &T) -> (res: Result<Vec<u8>, WriteError>)
    ensures
        res matches Ok(bytes) && bytes@ == val.encoding(),
{
    val.encode()
}

/// The value at the front of `bytes`. Bytes after it are not looked at.
pub fn decode<T: Decode>(bytes: &[u8]) -> (res: Result<T, DecodeError>)
    ensures
        match res {
            Ok(value) => T::decoding(bytes@) matches Ok((model, _)) && model == value@,
            Err(e) => T::decoding(bytes@) == Err::<(T::V, nat), DecodeError>(e),
        },
{
    match T::decode(bytes) {
        Ok((value, _)) => Ok(value),
        Err(e) => Err(e),
    }
}

/// The prefix that announces a sequence of `n` bytes or elements, for `n` below `2^64`: one
/// byte up to 250, else a marker byte and the number in 2, 4 or 8 little-endian bytes.
pub open spec fn length_prefix(n: nat) -> Seq<u8> {
    if n <= 250 {
        seq![n as u8]
    } else if n <= 0xffff {
        seq![251u8] + le_bytes(n, 2)
    } else if n <= 0xffff_ffff {
        seq![252u8] + le_bytes(n, 4)
    } else {
        seq![253u8] + le_bytes(n, 8)
    }
}

/// The number after a marker byte, in `width` little-endian bytes. Only a number above
/// `shorter`, the largest that the next shorter form holds, may stand in this form.
pub open spec fn parse_wide_length(bytes: Seq<u8>, width: nat, shorter: nat) -> Result<
    (nat, nat),
    DecodeError,
> {
    if bytes.len() < 1 + width {
        Err(DecodeError::UnexpectedEnd)
    } else if le_value(bytes.subrange(1, 1 + width as int)) <= shorter {
        Err(DecodeError::InvalidLength)
    } else {
        Ok((le_value(bytes.subrange(1, 1 + width as int)), 1 + width))
    }
}

/// The length that the front of `bytes` announces and the number of bytes of the prefix.
/// A length has one form only, the shortest that holds it: a wider one is no length.
pub open spec fn parse_length(bytes: Seq<u8>) -> Result<(nat, nat), DecodeError> {
    if bytes.len() == 0 {
        Err(DecodeError::UnexpectedEnd)
    } else if bytes[0] <= 250 {
        Ok((bytes[0] as nat, 1))
    } else if bytes[0] == 251 {
        parse_wide_length(bytes, 2, 250)
    } else if bytes[0] == 252 {
        parse_wide_length(bytes, 4, 0xffff)
    } else if bytes[0] == 253 {
        parse_wide_length(bytes, 8, 0xffff_ffff)
    } else {
        Err(DecodeError::InvalidLength)
    }
}

/// A length that is read stands in the bytes that `length_prefix` writes for it.
pub proof fn lemma_parse_length_canonical(bytes: Seq<u8>)
    ensures
        parse_length(bytes) matches Ok((n, used)) ==> n <= u64::MAX && 1 <= used <= bytes.len()
            && length_prefix(n) == bytes.take(used as int),
{
    lemma_pow256_values();
    if let Ok((n, used)) = parse_length(bytes) {
        if bytes[0] <= 250 {
            assert(length_prefix(n) =~= bytes.take(1));
        } else {
            let width = (used - 1) as nat;
            let digits = bytes.subrange(1, 1 + width as int);
            lemma_le_value_bound(digits);
            lemma_le_bytes_of_le_value(digits);
            assert(seq![bytes[0]] + digits =~= bytes.take(used as int));
        }
    }
}

/// A length prefix is read back as the length it was written for, whatever follows it.
pub proof fn lemma_parse_length_prefix(n: nat, rest: Seq<u8>)
    requires
        n <= u64::MAX,
    ensures
        parse_length(length_prefix(n) + rest) == Ok::<(nat, nat), DecodeError>(
            (n, length_prefix(n).len()),
        ),
        1 <= length_prefix(n).len() <= 9,
{
    let bytes = length_prefix(n) + rest;
    lemma_pow256_values();
    if n <= 250 {
    } else {
        let width: nat = if n <= 0xffff {
            2
        } else if n <= 0xffff_ffff {
            4
        } else {
            8
        };
        lemma_le_bytes_len(n, width);
        lemma_le_value_of_le_bytes(n, width);
        assert(bytes.subrange(1, 1 + width as int) =~= le_bytes(n, width));
    }
}

/// Reads a length prefix from the front of `bytes`.
pub fn read_length(bytes: &[u8]) -> (res: Result<(u64, usize), DecodeError>)
    ensures
        match res {
            Ok((n, used)) => parse_length(bytes@) == Ok::<(nat, nat), DecodeError>(
                (n as nat, used as nat),
            ),
            Err(e) => parse_length(bytes@) == Err::<(nat, nat), DecodeError>(e),
        },
{
    if bytes.len() == 0 {
        return Err(DecodeError::UnexpectedEnd);
    }
    let first = bytes[0];
    if first <= 250 {
        return Ok((first as u64, 1));
    }
    let width: usize = if first == 251 {
        2
    } else if first == 252 {
        4
    } else if first == 253 {
        8
    } else {
        return Err(DecodeError::InvalidLength);
    };
    if bytes.len() < 1 + width {
        return Err(DecodeError::UnexpectedEnd);
    }
    let n = read_le(bytes, 1, width);
    proof {
        lemma_pow256_values();
    }
    let shorter: u128 = if first == 251 {
        250
    } else if first == 252 {
        0xffff
    } else {
        0xffff_ffff
    };
    if n <= shorter {
        return Err(DecodeError::InvalidLength);
    }
    Ok((n as u64, 1 + width))
}

/// The error that `bincode::encode_to_vec` can report.
#[verifier::external_type_specification]
#[verifier::external_body]
pub struct ExBincodeEncodeError(bincode::error::EncodeError);

/// `bincode::encode_to_vec` on a vector of bytes, in bincode's standard configuration. The
/// bytes that come back are the number of bytes as a length prefix, then the bytes as they
/// are. It writes into a vector that grows, which takes every write.
#[verifier::external_body]
pub(crate) fn bincode_bytes(payload: &Vec<u8>) -> (res: Result<Vec<u8>, bincode::error::EncodeError>)
    ensures
        res is Ok,
        res matches Ok(out) ==> out@ == length_prefix(payload@.len()) + payload@,
{
    bincode::encode_to_vec(payload, bincode::config::standard())
}

/// The bytes of each hash of a sequence.
pub open spec fn hash_parts<const N: usize>(hashes: Seq<[u8; N]>) -> Seq<Seq<u8>> {
    Seq::new(hashes.len(), |i: int| hashes[i]@)
}

/// `bincode::encode_to_vec` on a vector of byte arrays of one length, in bincode's standard
/// configuration. The bytes that come back are the number of arrays as a length prefix,
/// then the bytes of each array in order, with nothing between them. It writes into a
/// vector that grows, which takes every write.
#[verifier::external_body]
pub(crate) fn bincode_hashes<const N: usize>(hashes: &Vec<[u8; N]>) -> (res: Result<Vec<u8>, bincode::error::EncodeError>)
    ensures
        res is Ok,
        res matches Ok(out) ==> out@ == length_prefix(hashes@.len()) + hash_parts(hashes@).flatten(),
{
    bincode::encode_to_vec(hashes, bincode::config::standard())
}

/// A sequence of `n` bytes behind the prefix that announces `n`.
pub fn frame(payload: &Vec<u8>) -> (res: Result<Vec<u8>, WriteError>)
    ensures
        res matches Ok(out) && out@ == length_prefix(payload@.len()) + payload@,
{
    match bincode_bytes(payload) {
        Ok(out) => Ok(out),
        Err(_) => Err(WriteError::Writer),
    }
}

} // verus!
