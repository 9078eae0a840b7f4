//! The check of the address file against the checksum that its name carries.

use vstd::prelude::*;
use crate::engine::bytes::blake3;
use crate::engine::bytes::blake3_digest;
use crate::engine::bytes::hex_encode;
use crate::engine::bytes::hex_text;
use crate::engine::bytes::sha256;
use crate::engine::bytes::sha256_digest;
use crate::text::contains;
use crate::text::contains_bytes;
use crate::text::first_with;
use crate::text::part_views;
use crate::text::same_bytes;
use crate::text::split;
use crate::text::split_bytes;

verus! {

/// Why an address file does not pass the check.
#[derive(Clone, Copy, Debug, PartialEq, Eq, Structural)]
pub enum ChecksumError {
    /// The name of the file is not that of an address file: it does not hold the word
    /// `genesisbalances`, or it has fewer than four parts between dots.
    InvalidPath,
    /// No part of the name before the last holds the name of the hash function and, behind
    /// an underscore, a checksum.
    NoChecksum,
    /// The checksum of the contents is not the one in the name.
    Mismatch,
}

/// The hash function of a checksum.
#[derive(Clone, Copy, Debug, PartialEq, Eq, Structural)]
pub enum SumType {
    Blake3,
    Sha256,
}

/// The word `genesisbalances`.
pub open spec fn genesis_word() -> Seq<u8> {
    seq![103u8, 101u8, 110u8, 101u8, 115u8, 105u8, 115u8, 98u8, 97u8, 108u8, 97u8, 110u8, 99u8,
        101u8, 115u8]
}

/// The name of the hash function as it stands in the name of a file: `blake3` or `sha256`.
pub open spec fn sum_word(sumtype: SumType) -> Seq<u8> {
    match sumtype {
        SumType::Blake3 => seq![98u8, 108u8, 97u8, 107u8, 101u8, 51u8],
        SumType::Sha256 => seq![115u8, 104u8, 97u8, 50u8, 53u8, 54u8],
    }
}

/// The checksum that the name of an address file carries. The name holds the word
/// `genesisbalances` and has at least four parts between dots. The first part before the
/// last that holds the name of the hash function carries the checksum: it is what stands
/// between the first and the second underscore of that part, or behind the first where
/// there is no second.
pub open spec fn named_checksum(sumtype: SumType, path: Seq<u8>) -> Result<
    Seq<u8>,
    ChecksumError,
> {
    let parts = split(path, 46u8);
    if !contains(path, genesis_word()) || parts.len() < 4 {
        Err(ChecksumError::InvalidPath)
    } else {
        match first_with(parts.drop_last(), sum_word(sumtype)) {
            None => Err(ChecksumError::NoChecksum),
            Some(part) => if split(part, 95u8).len() < 2 {
                Err(ChecksumError::NoChecksum)
            } else {
                Ok(split(part, 95u8)[1])
            },
        }
    }
}

/// The checksum of `raw` as it stands in the name of a file: its digest in hexadecimal text.
pub open spec fn checksum_text(sumtype: SumType, raw: Seq<u8>) -> Seq<u8> {
    match sumtype {
        SumType::Blake3 => hex_text(blake3(raw, 32)),
        SumType::Sha256 => hex_text(sha256(raw)),
    }
}

/// What the check of an address file comes to.
pub open spec fn checked(sumtype: SumType, path: Seq<u8>, raw: Seq<u8>) -> Result<
    (),
    ChecksumError,
> {
    match named_checksum(sumtype, path) {
        Err(e) => Err(e),
        Ok(expected) => if checksum_text(sumtype, raw) == expected {
            Ok(())
        } else {
            Err(ChecksumError::Mismatch)
        },
    }
}

/// The first part is not the one: the search goes on behind it.
proof fn lemma_first_with_skip(parts: Seq<Seq<u8>>, word: Seq<u8>, at: int)
    requires
        0 <= at < parts.len(),
        !contains(parts[at], word),
    ensures
        first_with(parts.skip(at), word) == first_with(parts.skip(at + 1), word),
{
    assert(parts.skip(at).drop_first() =~= parts.skip(at + 1));
}

/// The place of the first of the first `upto` parts in which `word` stands.
fn find_with(parts: &Vec<Vec<u8>>, upto: usize, word: &[u8]) -> (res: Option<usize>)
    requires
        upto <= parts.len(),
    ensures
        match res {
            Some(at) => at < upto && first_with(part_views(parts@).take(upto as int), word@)
                == Some(parts@[at as int]@),
            None => first_with(part_views(parts@).take(upto as int), word@) is None,
        },
{
    let ghost searched = part_views(parts@).take(upto as int);
    let mut at: usize = 0;
    assert(searched.skip(0) =~= searched);
    while at < upto
        invariant
            at <= upto <= parts.len(),
            searched == part_views(parts@).take(upto as int),
            first_with(searched, word@) == first_with(searched.skip(at as int), word@),
        decreases upto - at,
    {
        assert(searched.skip(at as int)[0] == parts@[at as int]@);
        if contains_bytes(parts[at].as_slice(), word) {
            return Some(at);
        }
        proof {
            lemma_first_with_skip(searched, word@, at as int);
        }
        at += 1;
    }
    None
}

/// Reads the checksum that the name of an address file carries.
pub fn read_named_checksum(addresses_path: &[u8], sumtype: SumType) -> (res: Result<
    Vec<u8>,
    ChecksumError,
>)
    ensures
        match res {
            Ok(checksum) => named_checksum(sumtype, addresses_path@) == Ok::<
                Seq<u8>,
                ChecksumError,
            >(checksum@),
            Err(e) => named_checksum(sumtype, addresses_path@) == Err::<Seq<u8>, ChecksumError>(e),
        },
{
    let genesis: [u8; 15] = [103, 101, 110, 101, 115, 105, 115, 98, 97, 108, 97, 110, 99, 101, 115];
    let blake3_word: [u8; 6] = [98, 108, 97, 107, 101, 51];
    let sha256_word: [u8; 6] = [115, 104, 97, 50, 53, 54];
    assert(genesis@ =~= genesis_word());
    assert(blake3_word@ =~= sum_word(SumType::Blake3));
    assert(sha256_word@ =~= sum_word(SumType::Sha256));
    let word: &[u8] = match sumtype {
        SumType::Blake3 => blake3_word.as_slice(),
        SumType::Sha256 => sha256_word.as_slice(),
    };
    let parts = split_bytes(addresses_path, 46);
    if !contains_bytes(addresses_path, genesis.as_slice()) || parts.len() < 4 {
        return Err(ChecksumError::InvalidPath);
    }
    assert(part_views(parts@).drop_last() =~= part_views(parts@).take(parts@.len() - 1));
    let named = match find_with(&parts, parts.len() - 1, word) {
        Some(at) => at,
        None => {
            return Err(ChecksumError::NoChecksum);
        },
    };
    let mut pieces = split_bytes(parts[named].as_slice(), 95);
    if pieces.len() < 2 {
        return Err(ChecksumError::NoChecksum);
    }
    assert(part_views(pieces@)[1] == pieces@[1]@);
    Ok(pieces.swap_remove(1))
}

/// Checks the contents `addresses_raw` of an address file against the checksum in its name
/// `addresses_path`. The name has the form `genesisbalances.<hash>_<checksum>.<...>.<ext>`,
/// and the checksum is the digest of the contents in lower-case hexadecimal text.
pub fn verify_addresses_checksum(addresses_path: &[u8], addresses_raw: &[u8], sumtype: SumType) -> (res:
    Result<(), ChecksumError>)
    ensures
        res == checked(sumtype, addresses_path@, addresses_raw@),
{
    let expected = match read_named_checksum(addresses_path, sumtype) {
        Ok(expected) => expected,
        Err(e) => {
            return Err(e);
        },
    };
    let checksum = match sumtype {
        SumType::Blake3 => hex_encode(blake3_digest::<32>(addresses_raw).as_slice()),
        SumType::Sha256 => hex_encode(sha256_digest(addresses_raw).as_slice()),
    };
    if same_bytes(checksum.as_slice(), expected.as_slice()) {
        Ok(())
    } else {
        Err(ChecksumError::Mismatch)
    }
}

} // verus!
