//! Little-endian byte strings and the numbers they denote.

use vstd::prelude::*;

verus! {

/// 256 to the power `k`.
pub open spec fn pow256(k: nat) -> nat
    decreases k,
{
    if k == 0 {
        1
    } else {
        256 * pow256((k - 1) as nat)
    }
}

/// The number that little-endian `bytes` denote.
pub open spec fn le_value(bytes: Seq<u8>) -> nat
    decreases bytes.len(),
{
    if bytes.len() == 0 {
        0
    } else {
        bytes[0] as nat + 256 * le_value(bytes.drop_first())
    }
}

/// The `width` low bytes of `n`, least significant first.
pub open spec fn le_bytes(n: nat, width: nat) -> Seq<u8>
    decreases width,
{
    if width == 0 {
        Seq::empty()
    } else {
        seq![(n % 256) as u8] + le_bytes(n / 256, (width - 1) as nat)
    }
}

/// The shortest little-endian form of `n`: no most significant zero byte, and no byte at
/// all for zero.
pub open spec fn le_minimal(n: nat) -> Seq<u8>
    decreases n,
{
    if n == 0 {
        Seq::empty()
    } else {
        seq![(n % 256) as u8] + le_minimal(n / 256)
    }
}

/// Little-endian bytes without a most significant zero byte.
pub open spec fn is_minimal(bytes: Seq<u8>) -> bool {
    bytes.len() > 0 ==> bytes.last() != 0
}

/// The unsigned number whose `width` bytes are the two's complement form of `v`.
pub open spec fn twos_complement(v: int, width: nat) -> nat {
    if v >= 0 {
        v as nat
    } else {
        (v + pow256(width)) as nat
    }
}

/// The signed number that the unsigned `n` stands for in two's complement of `width` bytes.
pub open spec fn from_twos_complement(n: nat, width: nat) -> int {
    if 2 * n < pow256(width) {
        n as int
    } else {
        n - pow256(width)
    }
}

/// The distance of `v` from zero.
pub open spec fn magnitude(v: int) -> nat {
    if v < 0 {
        (-v) as nat
    } else {
        v as nat
    }
}

/// The quotient of `a` by `b` rounded towards zero, for `b` other than zero.
pub open spec fn truncating_quotient(a: int, b: int) -> int {
    if (a < 0) == (b < 0) {
        (magnitude(a) / magnitude(b)) as int
    } else {
        -((magnitude(a) / magnitude(b)) as int)
    }
}

/// The number of binary digits of `n`; zero has none.
pub open spec fn bit_length(n: nat) -> nat
    decreases n,
{
    if n == 0 {
        0
    } else {
        1 + bit_length(n / 2)
    }
}

/// The bytes of the shortest little-endian form of a number are its binary digits over
/// eight, rounded up.
pub proof fn lemma_le_minimal_len(n: nat)
    ensures
        le_minimal(n).len() == (bit_length(n) + 7) / 8,
    decreases n,
{
    reveal_with_fuel(bit_length, 10);
    if n == 0 {
    } else if n < 256 {
        assert(le_minimal(n / 256).len() == 0);
        assert(1 <= bit_length(n) <= 8);
    } else {
        lemma_le_minimal_len(n / 256);
        assert(n / 2 / 2 / 2 / 2 / 2 / 2 / 2 / 2 == n / 256);
        assert(bit_length(n) == 8 + bit_length(n / 256));
    }
}

/// The powers of 256 that are the ranges of the fixed widths.
pub proof fn lemma_pow256_values()
    ensures
        pow256(0) == 1,
        pow256(1) == 0x100,
        pow256(2) == 0x1_0000,
        pow256(4) == 0x1_0000_0000,
        pow256(8) == 0x1_0000_0000_0000_0000,
        pow256(16) == 0x1_0000_0000_0000_0000_0000_0000_0000_0000,
{
    reveal_with_fuel(pow256, 5);
    assert(pow256(4) == 0x1_0000_0000);
    assert(pow256(8) == 0x1_0000_0000 * pow256(4));
    assert(pow256(12) == 0x1_0000_0000 * pow256(8));
    assert(pow256(16) == 0x1_0000_0000 * pow256(12));
}

/// The `width` low bytes of a number are `width` bytes.
pub proof fn lemma_le_bytes_len(n: nat, width: nat)
    ensures
        le_bytes(n, width).len() == width,
    decreases width,
{
    if width > 0 {
        lemma_le_bytes_len(n / 256, (width - 1) as nat);
    }
}

/// A byte string denotes a number below `256^len`.
pub proof fn lemma_le_value_bound(bytes: Seq<u8>)
    ensures
        le_value(bytes) < pow256(bytes.len()),
    decreases bytes.len(),
{
    if bytes.len() > 0 {
        lemma_le_value_bound(bytes.drop_first());
    }
}

/// Reading back the `width` low bytes of a number under `256^width` gives the number.
pub proof fn lemma_le_value_of_le_bytes(n: nat, width: nat)
    requires
        n < pow256(width),
    ensures
        le_value(le_bytes(n, width)) == n,
    decreases width,
{
    if width > 0 {
        let rest = le_bytes(n / 256, (width - 1) as nat);
        lemma_le_value_of_le_bytes(n / 256, (width - 1) as nat);
        assert(le_bytes(n, width).drop_first() =~= rest);
    }
}

/// Writing the number of a byte string over as many bytes gives the byte string.
pub proof fn lemma_le_bytes_of_le_value(bytes: Seq<u8>)
    ensures
        le_bytes(le_value(bytes), bytes.len()) == bytes,
    decreases bytes.len(),
{
    if bytes.len() > 0 {
        let rest = bytes.drop_first();
        lemma_le_bytes_of_le_value(rest);
        assert(le_value(bytes) % 256 == bytes[0]);
        assert(le_value(bytes) / 256 == le_value(rest));
        assert(le_bytes(le_value(bytes), bytes.len()) =~= bytes);
    } else {
        assert(le_bytes(le_value(bytes), bytes.len()) =~= bytes);
    }
}

/// The shortest form of a number denotes the number, has no most significant zero byte,
/// and is empty for zero only.
pub proof fn lemma_le_minimal(n: nat)
    ensures
        is_minimal(le_minimal(n)),
        le_value(le_minimal(n)) == n,
        n == 0 <==> le_minimal(n).len() == 0,
    decreases n,
{
    if n > 0 {
        let rest = le_minimal(n / 256);
        lemma_le_minimal(n / 256);
        assert(le_minimal(n).drop_first() =~= rest);
        if rest.len() > 0 {
            assert(le_minimal(n).last() == rest.last());
        }
    }
}

/// A byte string without a most significant zero byte is the shortest form of its number.
pub proof fn lemma_le_minimal_unique(bytes: Seq<u8>)
    requires
        is_minimal(bytes),
    ensures
        le_minimal(le_value(bytes)) == bytes,
    decreases bytes.len(),
{
    if bytes.len() > 0 {
        let rest = bytes.drop_first();
        if rest.len() > 0 {
            assert(rest.last() == bytes.last());
        }
        lemma_le_minimal_unique(rest);
        lemma_le_value_nonzero(bytes);
        assert(le_value(bytes) % 256 == bytes[0]);
        assert(le_value(bytes) / 256 == le_value(rest));
        assert(le_minimal(le_value(bytes)) =~= bytes);
    }
}

/// A non-empty byte string whose last byte is not zero denotes a number that is not zero.
pub proof fn lemma_le_value_nonzero(bytes: Seq<u8>)
    requires
        bytes.len() > 0,
        bytes.last() != 0,
    ensures
        le_value(bytes) > 0,
    decreases bytes.len(),
{
    let rest = bytes.drop_first();
    if rest.len() > 0 {
        assert(rest.last() == bytes.last());
        lemma_le_value_nonzero(rest);
    }
}

/// A byte string whose last byte is not zero denotes a number of at least `256^(len - 1)`.
pub proof fn lemma_le_value_lower_bound(bytes: Seq<u8>)
    requires
        bytes.len() > 0,
        bytes.last() != 0,
    ensures
        le_value(bytes) >= pow256((bytes.len() - 1) as nat),
    decreases bytes.len(),
{
    let rest = bytes.drop_first();
    if rest.len() > 0 {
        assert(rest.last() == bytes.last());
        lemma_le_value_lower_bound(rest);
    }
}

/// Of two byte strings of one length that agree above position `i`, the one with the
/// smaller byte at `i` denotes the smaller number.
pub proof fn lemma_le_value_order(a: Seq<u8>, b: Seq<u8>, i: int)
    requires
        a.len() == b.len(),
        0 <= i < a.len(),
        a[i] < b[i],
        forall|j: int| i < j < a.len() ==> a[j] == b[j],
    ensures
        le_value(a) < le_value(b),
    decreases a.len(),
{
    let ra = a.drop_first();
    let rb = b.drop_first();
    if i == 0 {
        assert(ra =~= rb);
    } else {
        lemma_le_value_order(ra, rb, i - 1);
    }
}

/// Appends the `width` low bytes of `value` to `out`, least significant first.
pub fn push_le(out: &mut Vec<u8>, value: u128, width: usize)
    ensures
        final(out)@ == old(out)@ + le_bytes(value as nat, width as nat),
    decreases width,
{
    if width > 0 {
        out.push((value % 256) as u8);
        push_le(out, value / 256, width - 1);
        assert(final(out)@ =~= old(out)@ + le_bytes(value as nat, width as nat));
    } else {
        assert(final(out)@ =~= old(out)@ + le_bytes(value as nat, width as nat));
    }
}

/// The number that the `width` bytes of `bytes` from `start` on denote.
pub fn read_le(bytes: &[u8], start: usize, width: usize) -> (value: u128)
    requires
        width <= 16,
        start + width <= bytes.len(),
    ensures
        value == le_value(bytes@.subrange(start as int, start + width)),
        value < pow256(width as nat),
    decreases width,
{
    let ghost part = bytes@.subrange(start as int, start + width);
    proof {
        lemma_le_value_bound(part);
        lemma_pow256_values();
    }
    if width == 0 {
        0
    } else {
        let rest = read_le(bytes, start + 1, width - 1);
        proof {
            assert(part.drop_first() =~= bytes@.subrange(start + 1, start + width));
            lemma_pow256_monotonic((width - 1) as nat, 15);
            reveal_with_fuel(pow256, 2);
        }
        bytes[start] as u128 + 256 * rest
    }
}

/// A larger power of 256 is not the smaller number.
pub proof fn lemma_pow256_monotonic(a: nat, b: nat)
    requires
        a <= b,
    ensures
        pow256(a) <= pow256(b),
    decreases b,
{
    if a < b {
        lemma_pow256_monotonic(a, (b - 1) as nat);
    }
}

} // verus!
