//! Pseudo-random terms. They are seeded by the context and by the place of the instruction
//! in the run, so that every run of a script in a context draws the same terms.

use vstd::prelude::*;
use crate::decoding::fixed_value;
use crate::endian::le_bytes;
use crate::endian::push_le;
use crate::endian::read_le;
use crate::endian::twos_complement;
use crate::engine::bytes::blake3_keyed;
use crate::engine::bytes::blake3_keyed_digest;
use crate::engine::context::ContextModel;
use crate::engine::context::ExecutionContext;
use crate::fixed::FixedInt;
use crate::model::Kind;
use crate::model::TermModel;
use crate::model::Value;
use crate::term::VmTerm;

verus! {

/// The bytes that seed a draw: the chain, the height, the timestamp and the sequence number
/// of the context and the number of instructions that ran before the draw, each in
/// little-endian bytes.
pub open spec fn seed(context: ContextModel, executed: nat) -> Seq<u8> {
    le_bytes(context.chain_id as nat, 1) + le_bytes(context.height as nat, 8) + le_bytes(
        twos_complement(context.timestamp as int, 8),
        8,
    ) + le_bytes(context.sequence as nat, 4) + le_bytes(executed, 8)
}

/// The term of `kind` that is drawn in `context` after `executed` instructions: the keyed
/// BLAKE3 output for the seed under the hash of the previous block, as many bytes as a value
/// of the kind has, read as such a value.
pub open spec fn drawn(kind: Kind, context: ContextModel, executed: nat) -> TermModel {
    TermModel::Scalar(
        kind,
        fixed_value(
            kind,
            blake3_keyed(context.prev_block_hash, seed(context, executed), kind.width()),
        ),
    )
}

/// The bytes that seed a draw.
fn seed_bytes(context: &ExecutionContext, executed: u64) -> (bytes: Vec<u8>)
    ensures
        bytes@ == seed(context@, executed as nat),
{
    let mut bytes: Vec<u8> = Vec::new();
    push_le(&mut bytes, context.chain_id as u128, 1);
    push_le(&mut bytes, context.height as u128, 8);
    push_le(&mut bytes, context.timestamp.to_bits(), 8);
    push_le(&mut bytes, context.sequence as u128, 4);
    push_le(&mut bytes, executed as u128, 8);
    bytes
}

/// An integer of fixed width that is drawn.
fn draw_fixed<T: FixedInt, const N: usize>(key: &[u8; 32], seed: &Vec<u8>) -> (number: T)
    requires
        N == T::kind().width(),
    ensures
        Value::Number(number.number()) == fixed_value(
            T::kind(),
            blake3_keyed(key@, seed@, T::kind().width()),
        ),
{
    proof {
        T::lemma_kind();
    }
    let width = T::width();
    let digest = blake3_keyed_digest::<N>(key, seed.as_slice());
    let bits = read_le(digest.as_slice(), 0, N);
    assert(digest@.subrange(0, N as int) =~= digest@);
    T::from_bits(bits)
}

/// The term of `kind` that is drawn in `context` after `executed` instructions; none for
/// an integer of any size.
pub fn draw(kind: Kind, context: &ExecutionContext, executed: u64) -> (res: Option<VmTerm>)
    ensures
        match res {
            Some(term) => !kind.is_big() && term@ == drawn(kind, context@, executed as nat),
            None => kind.is_big(),
        },
{
    let seed = seed_bytes(context, executed);
    let key = &context.prev_block_hash;
    match kind {
        Kind::Hash160 => Some(VmTerm::Hash160(blake3_keyed_digest::<20>(key, seed.as_slice()))),
        Kind::Hash256 => Some(VmTerm::Hash256(blake3_keyed_digest::<32>(key, seed.as_slice()))),
        Kind::Hash512 => Some(VmTerm::Hash512(blake3_keyed_digest::<64>(key, seed.as_slice()))),
        Kind::Unsigned8 => Some(VmTerm::Unsigned8(draw_fixed::<u8, 1>(key, &seed))),
        Kind::Unsigned16 => Some(VmTerm::Unsigned16(draw_fixed::<u16, 2>(key, &seed))),
        Kind::Unsigned32 => Some(VmTerm::Unsigned32(draw_fixed::<u32, 4>(key, &seed))),
        Kind::Unsigned64 => Some(VmTerm::Unsigned64(draw_fixed::<u64, 8>(key, &seed))),
        Kind::Unsigned128 => Some(VmTerm::Unsigned128(draw_fixed::<u128, 16>(key, &seed))),
        Kind::Signed8 => Some(VmTerm::Signed8(draw_fixed::<i8, 1>(key, &seed))),
        Kind::Signed16 => Some(VmTerm::Signed16(draw_fixed::<i16, 2>(key, &seed))),
        Kind::Signed32 => Some(VmTerm::Signed32(draw_fixed::<i32, 4>(key, &seed))),
        Kind::Signed64 => Some(VmTerm::Signed64(draw_fixed::<i64, 8>(key, &seed))),
        Kind::Signed128 => Some(VmTerm::Signed128(draw_fixed::<i128, 16>(key, &seed))),
        Kind::UnsignedBig | Kind::SignedBig => None,
    }
}

} // verus!
