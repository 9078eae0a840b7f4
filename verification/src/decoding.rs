//! What bytes denote: the reading of a term from the front of a byte string, total on every
//! input.

use vstd::prelude::*;
use crate::codec::parse_length;
use crate::codec::DecodeError;
use crate::endian::is_minimal;
use crate::endian::le_value;
use crate::fixed::number_of_bits;
use crate::model::Kind;
use crate::model::TermModel;
use crate::model::Value;

verus! {

/// The kind of scalar that a tag byte selects.
pub open spec fn scalar_kind(tag: u8) -> Option<Kind> {
    match tag {
        0x00 => Some(Kind::Hash160),
        0x01 => Some(Kind::Hash256),
        0x02 => Some(Kind::Hash512),
        0x03 => Some(Kind::Unsigned8),
        0x04 => Some(Kind::Unsigned16),
        0x05 => Some(Kind::Unsigned32),
        0x06 => Some(Kind::Unsigned64),
        0x07 => Some(Kind::Unsigned128),
        0x08 => Some(Kind::UnsignedBig),
        0x09 => Some(Kind::Signed8),
        0x0a => Some(Kind::Signed16),
        0x0b => Some(Kind::Signed32),
        0x0c => Some(Kind::Signed64),
        0x0d => Some(Kind::Signed128),
        0x0e | 0x0f | 0x10 => Some(Kind::SignedBig),
        _ => None,
    }
}

/// The kind of the elements of the array that a tag byte selects.
pub open spec fn array_kind(tag: u8) -> Option<Kind> {
    match tag {
        0x13 => Some(Kind::Hash160),
        0x14 => Some(Kind::Hash256),
        0x15 => Some(Kind::Hash512),
        0x16 => Some(Kind::Unsigned8),
        0x17 => Some(Kind::Unsigned16),
        0x18 => Some(Kind::Unsigned32),
        0x19 => Some(Kind::Unsigned64),
        0x1a => Some(Kind::Unsigned128),
        0x1b => Some(Kind::UnsignedBig),
        0x1c => Some(Kind::Signed8),
        0x1d => Some(Kind::Signed16),
        0x1e => Some(Kind::Signed32),
        0x1f => Some(Kind::Signed64),
        0x20 => Some(Kind::Signed128),
        0x21 => Some(Kind::SignedBig),
        _ => None,
    }
}

/// The bytes that a length prefix at the front of `bytes` announces, and the number of
/// bytes of prefix and announced bytes together.
pub open spec fn parse_framed(bytes: Seq<u8>) -> Result<(Seq<u8>, nat), DecodeError> {
    match parse_length(bytes) {
        Err(e) => Err(e),
        Ok((n, used)) => if bytes.len() - used < n {
            Err(DecodeError::UnexpectedEnd)
        } else {
            Ok((bytes.subrange(used as int, (used + n) as int), used + n))
        },
    }
}

/// The value of fixed width that `chunk` holds: the bytes of a hash, or the number whose
/// little-endian two's complement form the bytes are.
pub open spec fn fixed_value(kind: Kind, chunk: Seq<u8>) -> Value {
    if kind.is_hash() {
        Value::Bytes(chunk)
    } else {
        Value::Number(number_of_bits(kind, le_value(chunk)))
    }
}

/// The magnitude that stands framed at the front of `bytes`, and the number of bytes that
/// it takes. A magnitude has one form only, the shortest: bytes with a most significant
/// zero byte are no magnitude.
pub open spec fn parse_magnitude(bytes: Seq<u8>) -> Result<(nat, nat), DecodeError> {
    match parse_framed(bytes) {
        Err(e) => Err(e),
        Ok((body, used)) => if is_minimal(body) {
            Ok((le_value(body), used))
        } else {
            Err(DecodeError::InvalidBigInteger)
        },
    }
}

/// The value of a scalar of `kind` that stands at the front of `bytes`, behind the tag byte
/// `tag`, and the number of bytes that it takes. Behind the tag of a negative or of a
/// positive big integer, the magnitude zero is an error: zero has a tag of its own.
pub open spec fn parse_payload(tag: u8, kind: Kind, bytes: Seq<u8>) -> Result<
    (Value, nat),
    DecodeError,
> {
    match kind {
        Kind::UnsignedBig => match parse_magnitude(bytes) {
            Err(e) => Err(e),
            Ok((magnitude, used)) => Ok((Value::Number(magnitude as int), used)),
        },
        Kind::SignedBig => if tag == 0x10 {
            Ok((Value::Number(0), 0))
        } else {
            match parse_magnitude(bytes) {
                Err(e) => Err(e),
                Ok((magnitude, used)) => if magnitude == 0 {
                    Err(DecodeError::InvalidBigInteger)
                } else if tag == 0x0e {
                    Ok((Value::Number(-(magnitude as int)), used))
                } else {
                    Ok((Value::Number(magnitude as int), used))
                },
            }
        },
        _ => if bytes.len() < kind.width() {
            Err(DecodeError::UnexpectedEnd)
        } else {
            Ok((fixed_value(kind, bytes.take(kind.width() as int)), kind.width()))
        },
    }
}

/// The values of fixed width that `body` holds one after the other, where `body` is a
/// whole number of them.
pub open spec fn parse_fixed_elements(kind: Kind, body: Seq<u8>) -> Seq<Value> {
    Seq::new(
        body.len() / kind.width(),
        |i: int| fixed_value(kind, body.subrange(i * kind.width(), (i + 1) * kind.width())),
    )
}

/// A value that is read takes no more bytes than there are.
pub proof fn lemma_parse_payload_used(tag: u8, kind: Kind, bytes: Seq<u8>)
    ensures
        parse_payload(tag, kind, bytes) matches Ok((_, used)) ==> used <= bytes.len(),
{
}

/// The integers of any size that `body` holds one after the other, each in its canonical
/// bytes with a tag of `kind`, up to the end of `body`.
pub open spec fn parse_big_elements(kind: Kind, body: Seq<u8>) -> Result<Seq<Value>, DecodeError>
    decreases body.len(),
{
    if body.len() == 0 {
        Ok(Seq::empty())
    } else if scalar_kind(body[0]) != Some(kind) {
        Err(DecodeError::InvalidTermType)
    } else {
        match parse_payload(body[0], kind, body.drop_first()) {
            Err(e) => Err(e),
            Ok((value, used)) => {
                proof {
                    lemma_parse_payload_used(body[0], kind, body.drop_first());
                }
                match parse_big_elements(kind, body.skip(1 + used as int)) {
                    Err(e) => Err(e),
                    Ok(rest) => Ok(seq![value] + rest),
                }
            },
        }
    }
}

/// The elements of an array of `kind` that stands at the front of `bytes`, behind the tag
/// byte, and the number of bytes that it takes.
pub open spec fn parse_array(kind: Kind, bytes: Seq<u8>) -> Result<(Seq<Value>, nat), DecodeError> {
    if kind.is_hash() {
        match parse_length(bytes) {
            Err(e) => Err(e),
            Ok((count, used)) => if bytes.len() - used < count * kind.width() {
                Err(DecodeError::UnexpectedEnd)
            } else {
                let body = bytes.subrange(used as int, (used + count * kind.width()) as int);
                Ok((parse_fixed_elements(kind, body), used + count * kind.width()))
            },
        }
    } else {
        match parse_framed(bytes) {
            Err(e) => Err(e),
            Ok((body, used)) => if kind.is_big() {
                match parse_big_elements(kind, body) {
                    Err(e) => Err(e),
                    Ok(elements) => Ok((elements, used)),
                }
            } else if body.len() % kind.width() != 0 {
                Err(DecodeError::InvalidArrayLength)
            } else {
                Ok((parse_fixed_elements(kind, body), used))
            },
        }
    }
}

/// An array that is read takes no more bytes than there are.
pub proof fn lemma_parse_array_used(kind: Kind, bytes: Seq<u8>)
    ensures
        parse_array(kind, bytes) matches Ok((_, used)) ==> used <= bytes.len(),
{
}

/// The term whose tag byte is `tag` and whose other bytes stand at the front of `rest`, and
/// the number of bytes of `rest` that it takes.
pub open spec fn parse_tagged(tag: u8, rest: Seq<u8>) -> Result<(TermModel, nat), DecodeError> {
    match scalar_kind(tag) {
        Some(kind) => match parse_payload(tag, kind, rest) {
            Err(e) => Err(e),
            Ok((value, used)) => Ok((TermModel::Scalar(kind, value), used)),
        },
        None => match array_kind(tag) {
            Some(kind) => match parse_array(kind, rest) {
                Err(e) => Err(e),
                Ok((elements, used)) => Ok((TermModel::Array(kind, elements), used)),
            },
            None => Err(DecodeError::InvalidTermType),
        },
    }
}

/// The term at the front of `bytes` and the number of bytes that it takes, or why there is
/// none: the bytes end too early, the first byte is no tag, a length prefix starts with a
/// byte that no length starts with or is wider than its length needs, an array of
/// fixed-width numbers is no whole number of them, the magnitude of a big integer has a
/// most significant zero byte, or a signed integer that is tagged as negative or positive
/// has the magnitude zero. Only the canonical bytes of a term are read as the term.
pub open spec fn parse_term(bytes: Seq<u8>) -> Result<(TermModel, nat), DecodeError> {
    if bytes.len() == 0 {
        Err(DecodeError::UnexpectedEnd)
    } else {
        match parse_tagged(bytes[0], bytes.drop_first()) {
            Err(e) => Err(e),
            Ok((term, used)) => Ok((term, 1 + used)),
        }
    }
}

} // verus!
