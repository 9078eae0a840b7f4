//! Joining arrays and taking parts of them.

use vstd::prelude::*;
use crate::bigint::BigSigned;
use crate::bigint::BigUnsigned;
use crate::fixed::number_values;
use crate::fixed::FixedInt;
use crate::term::hash_values;
use crate::term::signed_big_values;
use crate::term::unsigned_big_values;
use crate::term::VmTerm;

verus! {

/// A copy of the `count` elements of `source` from `from` on, behind `front`.
fn extend_copies<T: Copy>(front: Vec<T>, source: &Vec<T>, from: usize, count: usize) -> (all: Vec<T>)
    requires
        from + count <= source.len(),
    ensures
        all@ == front@ + source@.subrange(from as int, from + count),
{
    let mut all = front;
    let mut i: usize = 0;
    assert(front@ + source@.subrange(from as int, from as int) =~= front@);
    while i < count
        invariant
            i <= count,
            from + count <= source.len(),
            all@ == front@ + source@.subrange(from as int, from + i),
        decreases count - i,
    {
        all.push(source[from + i]);
        i += 1;
        assert(all@ =~= front@ + source@.subrange(from as int, from + i));
    }
    all
}

/// A copy of the `count` elements of `source` from `from` on, behind `front`.
fn extend_unsigned_bigs(
    front: Vec<BigUnsigned>,
    source: &Vec<BigUnsigned>,
    from: usize,
    count: usize,
) -> (all: Vec<BigUnsigned>)
    requires
        from + count <= source.len(),
    ensures
        unsigned_big_values(all@) == unsigned_big_values(front@) + unsigned_big_values(
            source@,
        ).subrange(from as int, from + count),
{
    let ghost values = unsigned_big_values(source@);
    let mut all = front;
    let mut i: usize = 0;
    assert(unsigned_big_values(front@) + values.subrange(from as int, from as int)
        =~= unsigned_big_values(front@));
    while i < count
        invariant
            i <= count,
            from + count <= source.len(),
            values == unsigned_big_values(source@),
            unsigned_big_values(all@) == unsigned_big_values(front@) + values.subrange(
                from as int,
                from + i,
            ),
        decreases count - i,
    {
        let ghost before = unsigned_big_values(all@);
        let element = source[from + i].clone();
        all.push(element);
        assert(unsigned_big_values(all@) =~= before.push(values[from + i]));
        i += 1;
        assert(unsigned_big_values(all@) =~= unsigned_big_values(front@) + values.subrange(
            from as int,
            from + i,
        ));
    }
    all
}

/// A copy of the `count` elements of `source` from `from` on, behind `front`.
fn extend_signed_bigs(front: Vec<BigSigned>, source: &Vec<BigSigned>, from: usize, count: usize) -> (all:
    Vec<BigSigned>)
    requires
        from + count <= source.len(),
    ensures
        signed_big_values(all@) == signed_big_values(front@) + signed_big_values(source@).subrange(
            from as int,
            from + count,
        ),
{
    let ghost values = signed_big_values(source@);
    let mut all = front;
    let mut i: usize = 0;
    assert(signed_big_values(front@) + values.subrange(from as int, from as int)
        =~= signed_big_values(front@));
    while i < count
        invariant
            i <= count,
            from + count <= source.len(),
            values == signed_big_values(source@),
            signed_big_values(all@) == signed_big_values(front@) + values.subrange(
                from as int,
                from + i,
            ),
        decreases count - i,
    {
        let ghost before = signed_big_values(all@);
        let element = source[from + i].clone();
        all.push(element);
        assert(signed_big_values(all@) =~= before.push(values[from + i]));
        i += 1;
        assert(signed_big_values(all@) =~= signed_big_values(front@) + values.subrange(
            from as int,
            from + i,
        ));
    }
    all
}

/// Two arrays of hashes, one after the other.
fn join_hashes<const N: usize>(front: &Vec<[u8; N]>, back: &Vec<[u8; N]>) -> (all: Vec<[u8; N]>)
    ensures
        hash_values(all@) == hash_values(front@) + hash_values(back@),
{
    let all = extend_copies(extend_copies(Vec::new(), front, 0, front.len()), back, 0, back.len());
    assert(all@ =~= front@ + back@);
    assert(hash_values(all@) =~= hash_values(front@) + hash_values(back@));
    all
}

/// Two arrays of integers of one fixed width, one after the other.
fn join_numbers<T: FixedInt>(front: &Vec<T>, back: &Vec<T>) -> (all: Vec<T>)
    ensures
        number_values(all@) == number_values(front@) + number_values(back@),
{
    let all = extend_copies(extend_copies(Vec::new(), front, 0, front.len()), back, 0, back.len());
    assert(all@ =~= front@ + back@);
    assert(number_values(all@) =~= number_values(front@) + number_values(back@));
    all
}

/// A part of an array of hashes.
fn part_of_hashes<const N: usize>(source: &Vec<[u8; N]>, from: usize, count: usize) -> (part: Vec<
    [u8; N],
>)
    requires
        from + count <= source.len(),
    ensures
        hash_values(part@) == hash_values(source@).subrange(from as int, from + count),
{
    let part = extend_copies(Vec::new(), source, from, count);
    assert(part@ =~= source@.subrange(from as int, from + count));
    assert(hash_values(part@) =~= hash_values(source@).subrange(from as int, from + count));
    part
}

/// A part of an array of integers of one fixed width.
fn part_of_numbers<T: FixedInt>(source: &Vec<T>, from: usize, count: usize) -> (part: Vec<T>)
    requires
        from + count <= source.len(),
    ensures
        number_values(part@) == number_values(source@).subrange(from as int, from + count),
{
    let part = extend_copies(Vec::new(), source, from, count);
    assert(part@ =~= source@.subrange(from as int, from + count));
    assert(number_values(part@) =~= number_values(source@).subrange(from as int, from + count));
    part
}

impl VmTerm {
    /// This array and then `other`, an array of the same kind, as one array.
    pub fn join(&self, other: &VmTerm) -> (res: Option<VmTerm>)
        ensures
            match res {
                Some(result) => self@.joined(other@) == Some(result@),
                None => self@.joined(other@) is None,
            },
    {
        if !self.is_array() || !other.is_array() || self.kind() != other.kind() {
            return None;
        }
        match (self, other) {
            (Self::Hash160Array(a), Self::Hash160Array(b)) => Some(Self::Hash160Array(join_hashes(a, b))),
            (Self::Hash256Array(a), Self::Hash256Array(b)) => Some(Self::Hash256Array(join_hashes(a, b))),
            (Self::Hash512Array(a), Self::Hash512Array(b)) => Some(Self::Hash512Array(join_hashes(a, b))),
            (Self::Unsigned8Array(a), Self::Unsigned8Array(b)) => Some(Self::Unsigned8Array(join_numbers(a, b))),
            (Self::Unsigned16Array(a), Self::Unsigned16Array(b)) => Some(Self::Unsigned16Array(join_numbers(a, b))),
            (Self::Unsigned32Array(a), Self::Unsigned32Array(b)) => Some(Self::Unsigned32Array(join_numbers(a, b))),
            (Self::Unsigned64Array(a), Self::Unsigned64Array(b)) => Some(Self::Unsigned64Array(join_numbers(a, b))),
            (Self::Unsigned128Array(a), Self::Unsigned128Array(b)) => Some(Self::Unsigned128Array(join_numbers(a, b))),
            (Self::Signed8Array(a), Self::Signed8Array(b)) => Some(Self::Signed8Array(join_numbers(a, b))),
            (Self::Signed16Array(a), Self::Signed16Array(b)) => Some(Self::Signed16Array(join_numbers(a, b))),
            (Self::Signed32Array(a), Self::Signed32Array(b)) => Some(Self::Signed32Array(join_numbers(a, b))),
            (Self::Signed64Array(a), Self::Signed64Array(b)) => Some(Self::Signed64Array(join_numbers(a, b))),
            (Self::Signed128Array(a), Self::Signed128Array(b)) => Some(Self::Signed128Array(join_numbers(a, b))),
            (Self::UnsignedBigArray(a), Self::UnsignedBigArray(b)) => {
                let front = extend_unsigned_bigs(Vec::new(), a, 0, a.len());
                assert(unsigned_big_values(front@) =~= unsigned_big_values(a@));
                let all = extend_unsigned_bigs(front, b, 0, b.len());
                assert(unsigned_big_values(all@) =~= unsigned_big_values(a@) + unsigned_big_values(
                    b@,
                ));
                Some(Self::UnsignedBigArray(all))
            },
            (Self::SignedBigArray(a), Self::SignedBigArray(b)) => {
                let front = extend_signed_bigs(Vec::new(), a, 0, a.len());
                assert(signed_big_values(front@) =~= signed_big_values(a@));
                let all = extend_signed_bigs(front, b, 0, b.len());
                assert(signed_big_values(all@) =~= signed_big_values(a@) + signed_big_values(b@));
                Some(Self::SignedBigArray(all))
            },
            _ => None,
        }
    }

    /// The `count` elements of this array from the element `from` on.
    pub fn part(&self, from: usize, count: usize) -> (res: Option<VmTerm>)
        ensures
            match res {
                Some(result) => self@.part(from as nat, count as nat) == Some(result@),
                None => self@.part(from as nat, count as nat) is None,
            },
    {
        let len = match self.array_len() {
            Some(len) => len,
            None => {
                return None;
            },
        };
        if from > len || count > len - from {
            return None;
        }
        match self {
            Self::Hash160Array(a) => Some(Self::Hash160Array(part_of_hashes(a, from, count))),
            Self::Hash256Array(a) => Some(Self::Hash256Array(part_of_hashes(a, from, count))),
            Self::Hash512Array(a) => Some(Self::Hash512Array(part_of_hashes(a, from, count))),
            Self::Unsigned8Array(a) => Some(Self::Unsigned8Array(part_of_numbers(a, from, count))),
            Self::Unsigned16Array(a) => Some(Self::Unsigned16Array(part_of_numbers(a, from, count))),
            Self::Unsigned32Array(a) => Some(Self::Unsigned32Array(part_of_numbers(a, from, count))),
            Self::Unsigned64Array(a) => Some(Self::Unsigned64Array(part_of_numbers(a, from, count))),
            Self::Unsigned128Array(a) => Some(Self::Unsigned128Array(part_of_numbers(a, from, count))),
            Self::Signed8Array(a) => Some(Self::Signed8Array(part_of_numbers(a, from, count))),
            Self::Signed16Array(a) => Some(Self::Signed16Array(part_of_numbers(a, from, count))),
            Self::Signed32Array(a) => Some(Self::Signed32Array(part_of_numbers(a, from, count))),
            Self::Signed64Array(a) => Some(Self::Signed64Array(part_of_numbers(a, from, count))),
            Self::Signed128Array(a) => Some(Self::Signed128Array(part_of_numbers(a, from, count))),
            Self::UnsignedBigArray(a) => {
                let part = extend_unsigned_bigs(Vec::new(), a, from, count);
                assert(unsigned_big_values(part@) =~= unsigned_big_values(a@).subrange(
                    from as int,
                    from + count,
                ));
                Some(Self::UnsignedBigArray(part))
            },
            Self::SignedBigArray(a) => {
                let part = extend_signed_bigs(Vec::new(), a, from, count);
                assert(signed_big_values(part@) =~= signed_big_values(a@).subrange(
                    from as int,
                    from + count,
                ));
                Some(Self::SignedBigArray(part))
            },
            _ => None,
        }
    }
}

} // verus!
