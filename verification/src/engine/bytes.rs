//! Instructions on bytes: digests, hexadecimal text and the UTF-8 check.

use vstd::prelude::*;
use sha2::Digest;
use crate::fixed::number_values;
use crate::model::Kind;
use crate::model::TermModel;
use crate::model::Value;
use crate::term::VmTerm;

verus! {

/// A hash function that an instruction applies to bytes.
#[allow(non_camel_case_types)]
#[derive(Clone, Copy, Debug, PartialEq, Eq, Structural)]
pub enum HashFunction {
    Sha256,
    Sha512,
    Keccak256,
    Keccak512,
    Blake2b256,
    Blake2b512,
    Blake3_160,
    Blake3_256,
    Blake3_512,
    Ripemd160,
}

/// The length of a keyed BLAKE3 digest.
#[derive(Clone, Copy, Debug, PartialEq, Eq, Structural)]
pub enum DigestLength {
    Bits160,
    Bits256,
    Bits512,
}

/// The SHA-256 digest of `bytes`.
pub uninterp spec fn sha256(bytes: Seq<u8>) -> Seq<u8>;

/// The SHA-512 digest of `bytes`.
pub uninterp spec fn sha512(bytes: Seq<u8>) -> Seq<u8>;

/// The Keccak-256 digest of `bytes`.
pub uninterp spec fn keccak256(bytes: Seq<u8>) -> Seq<u8>;

/// The Keccak-512 digest of `bytes`.
pub uninterp spec fn keccak512(bytes: Seq<u8>) -> Seq<u8>;

/// The BLAKE2b digest of `bytes` in 32 bytes.
pub uninterp spec fn blake2b256(bytes: Seq<u8>) -> Seq<u8>;

/// The BLAKE2b digest of `bytes` in 64 bytes.
pub uninterp spec fn blake2b512(bytes: Seq<u8>) -> Seq<u8>;

/// The RIPEMD-160 digest of `bytes`.
pub uninterp spec fn ripemd160(bytes: Seq<u8>) -> Seq<u8>;

/// The first `len` bytes of the BLAKE3 output for `bytes`.
pub uninterp spec fn blake3(bytes: Seq<u8>, len: nat) -> Seq<u8>;

/// The first `len` bytes of the keyed BLAKE3 output for `bytes` under `key`.
pub uninterp spec fn blake3_keyed(key: Seq<u8>, bytes: Seq<u8>, len: nat) -> Seq<u8>;

/// `sha2::Sha256::digest`: the digest of the bytes, which the contract names.
#[verifier::external_body]
pub(crate) fn sha256_digest(bytes: &[u8]) -> (digest: [u8; 32])
    ensures
        digest@ == sha256(bytes@),
{
    sha2::Sha256::digest(bytes).into()
}

/// `sha2::Sha512::digest`: the digest of the bytes, which the contract names.
#[verifier::external_body]
fn sha512_digest(bytes: &[u8]) -> (digest: [u8; 64])
    ensures
        digest@ == sha512(bytes@),
{
    sha2::Sha512::digest(bytes).into()
}

/// `sha3::Keccak256::digest`: the digest of the bytes, which the contract names.
#[verifier::external_body]
fn keccak256_digest(bytes: &[u8]) -> (digest: [u8; 32])
    ensures
        digest@ == keccak256(bytes@),
{
    sha3::Keccak256::digest(bytes).into()
}

/// `sha3::Keccak512::digest`: the digest of the bytes, which the contract names.
#[verifier::external_body]
fn keccak512_digest(bytes: &[u8]) -> (digest: [u8; 64])
    ensures
        digest@ == keccak512(bytes@),
{
    sha3::Keccak512::digest(bytes).into()
}

/// `blake2::Blake2b::digest` with an output of 32 bytes: the digest of the bytes, which the
/// contract names.
#[verifier::external_body]
fn blake2b256_digest(bytes: &[u8]) -> (digest: [u8; 32])
    ensures
        digest@ == blake2b256(bytes@),
{
    blake2::Blake2b::<blake2::digest::consts::U32>::digest(bytes).into()
}

/// `blake2::Blake2b512::digest`: the digest of the bytes, which the contract names.
#[verifier::external_body]
fn blake2b512_digest(bytes: &[u8]) -> (digest: [u8; 64])
    ensures
        digest@ == blake2b512(bytes@),
{
    blake2::Blake2b512::digest(bytes).into()
}

/// `ripemd::Ripemd160::digest`: the digest of the bytes, which the contract names.
#[verifier::external_body]
fn ripemd160_digest(bytes: &[u8]) -> (digest: [u8; 20])
    ensures
        digest@ == ripemd160(bytes@),
{
    ripemd::Ripemd160::digest(bytes).into()
}

/// `blake3::OutputReader::fill` on the output of a `blake3::Hasher` that was fed the bytes:
/// the first `N` bytes of the output, which the contract names.
#[verifier::external_body]
pub(crate) fn blake3_digest<const N: usize>(bytes: &[u8]) -> (digest: [u8; N])
    ensures
        digest@ == blake3(bytes@, N as nat),
{
    let mut digest = [0u8; N];
    blake3::Hasher::new().update(bytes).finalize_xof().fill(&mut digest);
    digest
}

/// `blake3::OutputReader::fill` on the output of a `blake3::Hasher` that was made with the
/// key and fed the bytes: the first `N` bytes of the output, which the contract names.
#[verifier::external_body]
pub(crate) fn blake3_keyed_digest<const N: usize>(key: &[u8; 32], bytes: &[u8]) -> (digest: [u8; N])
    ensures
        digest@ == blake3_keyed(key@, bytes@, N as nat),
{
    let mut digest = [0u8; N];
    blake3::Hasher::new_keyed(key).update(bytes).finalize_xof().fill(&mut digest);
    digest
}

/// The numbers of an array of bytes, as bytes.
pub open spec fn byte_values(elements: Seq<Value>) -> Seq<u8> {
    Seq::new(
        elements.len(),
        |i: int|
            match elements[i] {
                Value::Number(v) => v as u8,
                Value::Bytes(_) => 0u8,
            },
    )
}

/// The bytes of a term that bears bytes: those of a hash, and the elements of an array of
/// 8-bit unsigned numbers. No other term bears bytes.
pub open spec fn content(term: TermModel) -> Option<Seq<u8>> {
    match term {
        TermModel::Scalar(_, Value::Bytes(bytes)) => Some(bytes),
        TermModel::Array(Kind::Unsigned8, elements) => Some(byte_values(elements)),
        _ => None,
    }
}

/// The bytes of an array of bytes are its elements.
pub proof fn lemma_byte_values(bytes: Seq<u8>)
    ensures
        byte_values(number_values(bytes)) == bytes,
{
    assert(byte_values(number_values(bytes)) =~= bytes);
}

/// The hash that `function` makes of `bytes`: a term of the digest's length.
pub open spec fn digest_of(function: HashFunction, bytes: Seq<u8>) -> TermModel {
    match function {
        HashFunction::Sha256 => TermModel::Scalar(Kind::Hash256, Value::Bytes(sha256(bytes))),
        HashFunction::Sha512 => TermModel::Scalar(Kind::Hash512, Value::Bytes(sha512(bytes))),
        HashFunction::Keccak256 => TermModel::Scalar(
            Kind::Hash256,
            Value::Bytes(keccak256(bytes)),
        ),
        HashFunction::Keccak512 => TermModel::Scalar(
            Kind::Hash512,
            Value::Bytes(keccak512(bytes)),
        ),
        HashFunction::Blake2b256 => TermModel::Scalar(
            Kind::Hash256,
            Value::Bytes(blake2b256(bytes)),
        ),
        HashFunction::Blake2b512 => TermModel::Scalar(
            Kind::Hash512,
            Value::Bytes(blake2b512(bytes)),
        ),
        HashFunction::Blake3_160 => TermModel::Scalar(
            Kind::Hash160,
            Value::Bytes(blake3(bytes, 20)),
        ),
        HashFunction::Blake3_256 => TermModel::Scalar(
            Kind::Hash256,
            Value::Bytes(blake3(bytes, 32)),
        ),
        HashFunction::Blake3_512 => TermModel::Scalar(
            Kind::Hash512,
            Value::Bytes(blake3(bytes, 64)),
        ),
        HashFunction::Ripemd160 => TermModel::Scalar(
            Kind::Hash160,
            Value::Bytes(ripemd160(bytes)),
        ),
    }
}

/// The keyed BLAKE3 hash of `bytes` under `key`, of the given length.
pub open spec fn keyed_digest_of(length: DigestLength, key: Seq<u8>, bytes: Seq<u8>) -> TermModel {
    match length {
        DigestLength::Bits160 => TermModel::Scalar(
            Kind::Hash160,
            Value::Bytes(blake3_keyed(key, bytes, 20)),
        ),
        DigestLength::Bits256 => TermModel::Scalar(
            Kind::Hash256,
            Value::Bytes(blake3_keyed(key, bytes, 32)),
        ),
        DigestLength::Bits512 => TermModel::Scalar(
            Kind::Hash512,
            Value::Bytes(blake3_keyed(key, bytes, 64)),
        ),
    }
}

/// The hash of a term that bears bytes; none for any other term.
pub open spec fn hashed(function: HashFunction, term: TermModel) -> Option<TermModel> {
    match content(term) {
        Some(bytes) => Some(digest_of(function, bytes)),
        None => None,
    }
}

/// The keyed hash of a term that bears bytes under a key that is a hash of 256 bits; none
/// for any other two terms.
pub open spec fn keyed_hashed(length: DigestLength, term: TermModel, key: TermModel) -> Option<
    TermModel,
> {
    match (content(term), key) {
        (Some(bytes), TermModel::Scalar(Kind::Hash256, Value::Bytes(key))) => Some(
            keyed_digest_of(length, key, bytes),
        ),
        _ => None,
    }
}

/// The lower-case hexadecimal digit of a number below sixteen, as a character code.
pub open spec fn hex_digit(nibble: u8) -> u8 {
    if nibble < 10 {
        (48 + nibble) as u8
    } else {
        (87 + nibble) as u8
    }
}

/// The hexadecimal text of `bytes`: two lower-case digits for each byte, the upper half of
/// the byte first.
pub open spec fn hex_text(bytes: Seq<u8>) -> Seq<u8> {
    Seq::new(
        2 * bytes.len(),
        |i: int|
            if i % 2 == 0 {
                hex_digit(bytes[i / 2] / 16)
            } else {
                hex_digit(bytes[i / 2] % 16)
            },
    )
}

/// The number that a hexadecimal digit of either case stands for; none for any other
/// character.
pub open spec fn hex_value(character: u8) -> Option<u8> {
    if 48 <= character <= 57 {
        Some((character - 48) as u8)
    } else if 97 <= character <= 102 {
        Some((character - 87) as u8)
    } else if 65 <= character <= 70 {
        Some((character - 55) as u8)
    } else {
        None
    }
}

/// The bytes that hexadecimal text stands for: one byte for each two digits. None for a
/// text of odd length or with a character that is no hexadecimal digit.
pub open spec fn hex_bytes(text: Seq<u8>) -> Option<Seq<u8>> {
    if text.len() % 2 != 0 {
        None
    } else if exists|i: int| 0 <= i < text.len() && hex_value(#[trigger] text[i]) is None {
        None
    } else {
        Some(
            Seq::new(
                text.len() / 2,
                |i: int|
                    (16 * hex_value(text[2 * i])->Some_0 + hex_value(text[2 * i + 1])->Some_0) as u8,
            ),
        )
    }
}

/// The error that `hex::decode` can report.
#[verifier::external_type_specification]
#[verifier::external_body]
pub struct ExFromHexError(hex::FromHexError);

/// `hex::encode`: two lower-case hexadecimal digits for each byte, the upper half of the
/// byte first. The digits are ASCII, and what comes back is the bytes of the string.
#[verifier::external_body]
pub(crate) fn hex_encode(bytes: &[u8]) -> (text: Vec<u8>)
    ensures
        text@ == hex_text(bytes@),
{
    hex::encode(bytes).into_bytes()
}

/// `hex::decode`: the bytes that the text stands for, one for each two hexadecimal digits of
/// either case, and an error for a text of odd length or with another character.
#[verifier::external_body]
fn hex_decode(text: &[u8]) -> (res: Result<Vec<u8>, hex::FromHexError>)
    ensures
        match res {
            Ok(bytes) => hex_bytes(text@) == Some(bytes@),
            Err(_) => hex_bytes(text@) is None,
        },
{
    hex::decode(text)
}

/// `std::str::from_utf8`: whether the bytes are valid UTF-8.
#[verifier::external_body]
fn utf8_check(bytes: &[u8]) -> (valid: bool)
    ensures
        valid == vstd::utf8::valid_utf8(bytes@),
{
    std::str::from_utf8(bytes).is_ok()
}

/// The hexadecimal text of an array of bytes, as an array of bytes; none for any other term.
pub open spec fn to_hex(term: TermModel) -> Option<TermModel> {
    match term {
        TermModel::Array(Kind::Unsigned8, elements) => Some(
            TermModel::Array(Kind::Unsigned8, number_values(hex_text(byte_values(elements)))),
        ),
        _ => None,
    }
}

/// The bytes that an array of bytes stands for as hexadecimal text, as an array of bytes;
/// none for any other term, and none for bytes that are no hexadecimal text.
pub open spec fn from_hex(term: TermModel) -> Option<TermModel> {
    match term {
        TermModel::Array(Kind::Unsigned8, elements) => match hex_bytes(byte_values(elements)) {
            Some(bytes) => Some(TermModel::Array(Kind::Unsigned8, number_values(bytes))),
            None => None,
        },
        _ => None,
    }
}

/// Whether an array of bytes is valid UTF-8, as a term; none for any other term.
pub open spec fn is_utf8(term: TermModel) -> Option<bool> {
    match term {
        TermModel::Array(Kind::Unsigned8, elements) => Some(
            vstd::utf8::valid_utf8(byte_values(elements)),
        ),
        _ => None,
    }
}

impl VmTerm {
    /// The bytes of a term that bears bytes.
    pub fn content(&self) -> (res: Option<&[u8]>)
        ensures
            match res {
                Some(bytes) => content(self@) == Some(bytes@),
                None => content(self@) is None,
            },
    {
        match self {
            Self::Hash160(h) => Some(h.as_slice()),
            Self::Hash256(h) => Some(h.as_slice()),
            Self::Hash512(h) => Some(h.as_slice()),
            Self::Unsigned8Array(v) => {
                proof {
                    lemma_byte_values(v@);
                }
                Some(v.as_slice())
            },
            _ => None,
        }
    }

    /// The hash that `function` makes of the bytes of a term that bears bytes.
    pub fn hash(&self, function: HashFunction) -> (res: Option<VmTerm>)
        ensures
            match res {
                Some(result) => hashed(function, self@) == Some(result@),
                None => hashed(function, self@) is None,
            },
    {
        match self.content() {
            None => None,
            Some(bytes) => Some(
                match function {
                    HashFunction::Sha256 => Self::Hash256(sha256_digest(bytes)),
                    HashFunction::Sha512 => Self::Hash512(sha512_digest(bytes)),
                    HashFunction::Keccak256 => Self::Hash256(keccak256_digest(bytes)),
                    HashFunction::Keccak512 => Self::Hash512(keccak512_digest(bytes)),
                    HashFunction::Blake2b256 => Self::Hash256(blake2b256_digest(bytes)),
                    HashFunction::Blake2b512 => Self::Hash512(blake2b512_digest(bytes)),
                    HashFunction::Blake3_160 => Self::Hash160(blake3_digest::<20>(bytes)),
                    HashFunction::Blake3_256 => Self::Hash256(blake3_digest::<32>(bytes)),
                    HashFunction::Blake3_512 => Self::Hash512(blake3_digest::<64>(bytes)),
                    HashFunction::Ripemd160 => Self::Hash160(ripemd160_digest(bytes)),
                },
            ),
        }
    }

    /// The keyed BLAKE3 hash of the bytes of a term that bears bytes, under a key that is
    /// a hash of 256 bits.
    pub fn keyed_hash(&self, length: DigestLength, key: &VmTerm) -> (res: Option<VmTerm>)
        ensures
            match res {
                Some(result) => keyed_hashed(length, self@, key@) == Some(result@),
                None => keyed_hashed(length, self@, key@) is None,
            },
    {
        match (self.content(), key) {
            (Some(bytes), Self::Hash256(key)) => Some(
                match length {
                    DigestLength::Bits160 => Self::Hash160(blake3_keyed_digest::<20>(key, bytes)),
                    DigestLength::Bits256 => Self::Hash256(blake3_keyed_digest::<32>(key, bytes)),
                    DigestLength::Bits512 => Self::Hash512(blake3_keyed_digest::<64>(key, bytes)),
                },
            ),
            _ => None,
        }
    }

    /// The hexadecimal text of an array of bytes.
    pub fn to_hex(&self) -> (res: Option<VmTerm>)
        ensures
            match res {
                Some(result) => to_hex(self@) == Some(result@),
                None => to_hex(self@) is None,
            },
    {
        match self {
            Self::Unsigned8Array(v) => {
                proof {
                    lemma_byte_values(v@);
                }
                Some(Self::Unsigned8Array(hex_encode(v.as_slice())))
            },
            _ => None,
        }
    }

    /// The bytes that an array of bytes stands for as hexadecimal text.
    pub fn from_hex(&self) -> (res: Option<VmTerm>)
        ensures
            match res {
                Some(result) => from_hex(self@) == Some(result@),
                None => from_hex(self@) is None,
            },
    {
        match self {
            Self::Unsigned8Array(v) => {
                proof {
                    lemma_byte_values(v@);
                }
                match hex_decode(v.as_slice()) {
                    Ok(bytes) => Some(Self::Unsigned8Array(bytes)),
                    Err(_) => None,
                }
            },
            _ => None,
        }
    }

    /// Whether an array of bytes is valid UTF-8.
    pub fn is_utf8(&self) -> (res: Option<bool>)
        ensures
            res == is_utf8(self@),
    {
        match self {
            Self::Unsigned8Array(v) => {
                proof {
                    lemma_byte_values(v@);
                }
                Some(utf8_check(v.as_slice()))
            },
            _ => None,
        }
    }
}

} // verus!
