//! Reading a whole term: the tag byte selects the reader of the value.

use vstd::prelude::*;
use vstd::slice::slice_subrange;
use crate::codec::Decode;
use crate::codec::DecodeError;
use crate::decoding::array_kind;
use crate::decoding::lemma_parse_array_used;
use crate::decoding::lemma_parse_payload_used;
use crate::decoding::parse_payload;
use crate::decoding::scalar_kind;
use crate::decoding::parse_tagged;
use crate::decoding::parse_term;
use crate::fixed::FixedInt;
use crate::model::Kind;
use crate::model::TermModel;
use crate::model::Value;
use crate::reader::read_fixed;
use crate::reader::read_fixed_array;
use crate::reader::read_hash;
use crate::reader::read_hash_array;
use crate::reader::read_signed_big;
use crate::reader::read_signed_big_array;
use crate::reader::read_unsigned_big;
use crate::reader::read_unsigned_big_array;
use crate::term::VmTerm;

verus! {

/// Reads what follows the tag of a hash of `N` bytes.
fn read_hash_payload<const N: usize>(Ghost(tag): Ghost<u8>, Ghost(kind): Ghost<Kind>, bytes: &[u8]) -> (res:
    Result<([u8; N], usize), DecodeError>)
    requires
        kind.is_hash(),
        kind.width() == N,
    ensures
        match res {
            Ok((hash, used)) => parse_payload(tag, kind, bytes@) == Ok::<(Value, nat), DecodeError>(
                (Value::Bytes(hash@), used as nat),
            ),
            Err(e) => parse_payload(tag, kind, bytes@) == Err::<(Value, nat), DecodeError>(e),
        },
{
    match read_hash::<N>(bytes) {
        Ok(hash) => Ok((hash, N)),
        Err(e) => Err(e),
    }
}

/// Reads what follows the tag of an integer of fixed width.
fn read_fixed_payload<T: FixedInt>(Ghost(tag): Ghost<u8>, bytes: &[u8]) -> (res: Result<
    (T, usize),
    DecodeError,
>)
    ensures
        match res {
            Ok((number, used)) => parse_payload(tag, T::kind(), bytes@) == Ok::<
                (Value, nat),
                DecodeError,
            >((Value::Number(number.number()), used as nat)),
            Err(e) => parse_payload(tag, T::kind(), bytes@) == Err::<(Value, nat), DecodeError>(e),
        },
{
    proof {
        T::lemma_kind();
    }
    match read_fixed::<T>(bytes) {
        Ok(number) => Ok((number, T::width())),
        Err(e) => Err(e),
    }
}

/// Reads what follows the tag of a scalar.
fn read_scalar_term(tag: u8, rest: &[u8]) -> (res: Result<(VmTerm, usize), DecodeError>)
    requires
        tag <= 0x10,
    ensures
        match res {
            Ok((term, used)) => parse_tagged(tag, rest@) == Ok::<(TermModel, nat), DecodeError>(
                (term@, used as nat),
            ) && used <= rest@.len(),
            Err(e) => parse_tagged(tag, rest@) == Err::<(TermModel, nat), DecodeError>(e),
        },
{
    proof {
        lemma_parse_payload_used(tag, scalar_kind(tag)->Some_0, rest@);
    }
    match tag {
        0x00 => match read_hash_payload::<20>(Ghost(tag), Ghost(Kind::Hash160), rest) {
            Ok((value, used)) => Ok((VmTerm::Hash160(value), used)),
            Err(e) => Err(e),
        },
        0x01 => match read_hash_payload::<32>(Ghost(tag), Ghost(Kind::Hash256), rest) {
            Ok((value, used)) => Ok((VmTerm::Hash256(value), used)),
            Err(e) => Err(e),
        },
        0x02 => match read_hash_payload::<64>(Ghost(tag), Ghost(Kind::Hash512), rest) {
            Ok((value, used)) => Ok((VmTerm::Hash512(value), used)),
            Err(e) => Err(e),
        },
        0x03 => match read_fixed_payload::<u8>(Ghost(tag), rest) {
            Ok((value, used)) => Ok((VmTerm::Unsigned8(value), used)),
            Err(e) => Err(e),
        },
        0x04 => match read_fixed_payload::<u16>(Ghost(tag), rest) {
            Ok((value, used)) => Ok((VmTerm::Unsigned16(value), used)),
            Err(e) => Err(e),
        },
        0x05 => match read_fixed_payload::<u32>(Ghost(tag), rest) {
            Ok((value, used)) => Ok((VmTerm::Unsigned32(value), used)),
            Err(e) => Err(e),
        },
        0x06 => match read_fixed_payload::<u64>(Ghost(tag), rest) {
            Ok((value, used)) => Ok((VmTerm::Unsigned64(value), used)),
            Err(e) => Err(e),
        },
        0x07 => match read_fixed_payload::<u128>(Ghost(tag), rest) {
            Ok((value, used)) => Ok((VmTerm::Unsigned128(value), used)),
            Err(e) => Err(e),
        },
        0x08 => match read_unsigned_big(rest) {
            Ok((value, used)) => Ok((VmTerm::UnsignedBig(value), used)),
            Err(e) => Err(e),
        },
        0x09 => match read_fixed_payload::<i8>(Ghost(tag), rest) {
            Ok((value, used)) => Ok((VmTerm::Signed8(value), used)),
            Err(e) => Err(e),
        },
        0x0a => match read_fixed_payload::<i16>(Ghost(tag), rest) {
            Ok((value, used)) => Ok((VmTerm::Signed16(value), used)),
            Err(e) => Err(e),
        },
        0x0b => match read_fixed_payload::<i32>(Ghost(tag), rest) {
            Ok((value, used)) => Ok((VmTerm::Signed32(value), used)),
            Err(e) => Err(e),
        },
        0x0c => match read_fixed_payload::<i64>(Ghost(tag), rest) {
            Ok((value, used)) => Ok((VmTerm::Signed64(value), used)),
            Err(e) => Err(e),
        },
        0x0d => match read_fixed_payload::<i128>(Ghost(tag), rest) {
            Ok((value, used)) => Ok((VmTerm::Signed128(value), used)),
            Err(e) => Err(e),
        },
        _ => match read_signed_big(tag, rest) {
            Ok((value, used)) => Ok((VmTerm::SignedBig(value), used)),
            Err(e) => Err(e),
        },
    }
}

/// Reads what follows the tag of an array of hashes.
fn read_hash_array_term(tag: u8, rest: &[u8]) -> (res: Result<(VmTerm, usize), DecodeError>)
    requires
        0x13 <= tag <= 0x15,
    ensures
        match res {
            Ok((term, used)) => parse_tagged(tag, rest@) == Ok::<(TermModel, nat), DecodeError>(
                (term@, used as nat),
            ) && used <= rest@.len(),
            Err(e) => parse_tagged(tag, rest@) == Err::<(TermModel, nat), DecodeError>(e),
        },
{
    proof {
        lemma_parse_array_used(array_kind(tag)->Some_0, rest@);
    }
    match tag {
        0x13 => match read_hash_array::<20>(Ghost(Kind::Hash160), rest) {
            Ok((values, used)) => Ok((VmTerm::Hash160Array(values), used)),
            Err(e) => Err(e),
        },
        0x14 => match read_hash_array::<32>(Ghost(Kind::Hash256), rest) {
            Ok((values, used)) => Ok((VmTerm::Hash256Array(values), used)),
            Err(e) => Err(e),
        },
        _ => match read_hash_array::<64>(Ghost(Kind::Hash512), rest) {
            Ok((values, used)) => Ok((VmTerm::Hash512Array(values), used)),
            Err(e) => Err(e),
        },
    }
}

/// Reads what follows the tag of an array of unsigned integers.
fn read_unsigned_array_term(tag: u8, rest: &[u8]) -> (res: Result<(VmTerm, usize), DecodeError>)
    requires
        0x16 <= tag <= 0x1b,
    ensures
        match res {
            Ok((term, used)) => parse_tagged(tag, rest@) == Ok::<(TermModel, nat), DecodeError>(
                (term@, used as nat),
            ) && used <= rest@.len(),
            Err(e) => parse_tagged(tag, rest@) == Err::<(TermModel, nat), DecodeError>(e),
        },
{
    proof {
        lemma_parse_array_used(array_kind(tag)->Some_0, rest@);
    }
    match tag {
        0x16 => match read_fixed_array::<u8>(rest) {
            Ok((values, used)) => Ok((VmTerm::Unsigned8Array(values), used)),
            Err(e) => Err(e),
        },
        0x17 => match read_fixed_array::<u16>(rest) {
            Ok((values, used)) => Ok((VmTerm::Unsigned16Array(values), used)),
            Err(e) => Err(e),
        },
        0x18 => match read_fixed_array::<u32>(rest) {
            Ok((values, used)) => Ok((VmTerm::Unsigned32Array(values), used)),
            Err(e) => Err(e),
        },
        0x19 => match read_fixed_array::<u64>(rest) {
            Ok((values, used)) => Ok((VmTerm::Unsigned64Array(values), used)),
            Err(e) => Err(e),
        },
        0x1a => match read_fixed_array::<u128>(rest) {
            Ok((values, used)) => Ok((VmTerm::Unsigned128Array(values), used)),
            Err(e) => Err(e),
        },
        _ => match read_unsigned_big_array(rest) {
            Ok((values, used)) => Ok((VmTerm::UnsignedBigArray(values), used)),
            Err(e) => Err(e),
        },
    }
}

/// Reads what follows the tag of an array of signed integers.
fn read_signed_array_term(tag: u8, rest: &[u8]) -> (res: Result<(VmTerm, usize), DecodeError>)
    requires
        0x1c <= tag <= 0x21,
    ensures
        match res {
            Ok((term, used)) => parse_tagged(tag, rest@) == Ok::<(TermModel, nat), DecodeError>(
                (term@, used as nat),
            ) && used <= rest@.len(),
            Err(e) => parse_tagged(tag, rest@) == Err::<(TermModel, nat), DecodeError>(e),
        },
{
    proof {
        lemma_parse_array_used(array_kind(tag)->Some_0, rest@);
    }
    match tag {
        0x1c => match read_fixed_array::<i8>(rest) {
            Ok((values, used)) => Ok((VmTerm::Signed8Array(values), used)),
            Err(e) => Err(e),
        },
        0x1d => match read_fixed_array::<i16>(rest) {
            Ok((values, used)) => Ok((VmTerm::Signed16Array(values), used)),
            Err(e) => Err(e),
        },
        0x1e => match read_fixed_array::<i32>(rest) {
            Ok((values, used)) => Ok((VmTerm::Signed32Array(values), used)),
            Err(e) => Err(e),
        },
        0x1f => match read_fixed_array::<i64>(rest) {
            Ok((values, used)) => Ok((VmTerm::Signed64Array(values), used)),
            Err(e) => Err(e),
        },
        0x20 => match read_fixed_array::<i128>(rest) {
            Ok((values, used)) => Ok((VmTerm::Signed128Array(values), used)),
            Err(e) => Err(e),
        },
        _ => match read_signed_big_array(rest) {
            Ok((values, used)) => Ok((VmTerm::SignedBigArray(values), used)),
            Err(e) => Err(e),
        },
    }
}

impl Decode for VmTerm {
    open spec fn decoding(bytes: Seq<u8>) -> Result<(TermModel, nat), DecodeError> {
        parse_term(bytes)
    }

    fn decode(bytes: &[u8]) -> (res: Result<(Self, usize), DecodeError>) {
        if bytes.len() == 0 {
            return Err(DecodeError::UnexpectedEnd);
        }
        let tag = bytes[0];
        let rest = slice_subrange(bytes, 1, bytes.len());
        assert(rest@ =~= bytes@.drop_first());
        let read = if tag <= 0x10 {
            read_scalar_term(tag, rest)
        } else if 0x13 <= tag && tag <= 0x15 {
            read_hash_array_term(tag, rest)
        } else if 0x16 <= tag && tag <= 0x1b {
            read_unsigned_array_term(tag, rest)
        } else if 0x1c <= tag && tag <= 0x21 {
            read_signed_array_term(tag, rest)
        } else {
            Err(DecodeError::InvalidTermType)
        };
        match read {
            Ok((term, used)) => Ok((term, 1 + used)),
            Err(e) => Err(e),
        }
    }
}

} // verus!
