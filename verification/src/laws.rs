//! What holds of the canonical bytes: they are read back as the term they were written for,
//! and the sign of a big integer is in its tag.

use vstd::prelude::*;
use crate::codec::lemma_parse_length_canonical;
use crate::codec::lemma_parse_length_prefix;
use crate::codec::parse_length;
use crate::codec::length_prefix;
use crate::codec::Decode;
use crate::codec::DecodeError;
use crate::codec::Encode;
use crate::decoding::array_kind;
use crate::decoding::fixed_value;
use crate::decoding::parse_array;
use crate::decoding::parse_big_elements;
use crate::decoding::parse_fixed_elements;
use crate::decoding::parse_framed;
use crate::decoding::parse_payload;
use crate::decoding::parse_tagged;
use crate::decoding::parse_term;
use crate::decoding::scalar_kind;
use crate::encoding::announced_length;
use crate::encoding::array_encoding;
use crate::encoding::array_tag;
use crate::encoding::elements_bytes;
use crate::encoding::elements_parts;
use crate::encoding::framed;
use crate::encoding::payload;
use crate::encoding::scalar_encoding;
use crate::encoding::scalar_tag;
use crate::endian::le_bytes;
use crate::endian::le_minimal;
use crate::endian::le_value;
use crate::endian::lemma_le_bytes_len;
use crate::endian::lemma_le_bytes_of_le_value;
use crate::endian::lemma_le_minimal_unique;
use crate::endian::lemma_le_value_bound;
use crate::endian::lemma_le_minimal;
use crate::endian::lemma_le_value_of_le_bytes;
use crate::endian::lemma_pow256_values;
use crate::endian::magnitude;
use crate::endian::pow256;
use crate::endian::twos_complement;
use crate::fixed::number_of_bits;
use crate::model::Kind;
use crate::model::EMPTY_VEC_HEAP_SIZE;
use crate::model::TermModel;
use crate::model::Value;
use crate::term::lemma_view_well_formed;
use crate::term::VmTerm;

verus! {

/// Framed bytes are read back as they were written, whatever follows them.
pub proof fn lemma_framed_round_trip(bytes: Seq<u8>, rest: Seq<u8>)
    requires
        bytes.len() <= u64::MAX,
    ensures
        parse_framed(framed(bytes) + rest) == Ok::<(Seq<u8>, nat), DecodeError>(
            (bytes, framed(bytes).len()),
        ),
{
    let prefix = length_prefix(bytes.len());
    lemma_parse_length_prefix(bytes.len(), bytes + rest);
    assert(framed(bytes) + rest =~= prefix + (bytes + rest));
    assert((framed(bytes) + rest).subrange(prefix.len() as int, (prefix.len() + bytes.len()) as int)
        =~= bytes);
}

/// A number of a kind of fixed width is read back from its two's complement form.
pub proof fn lemma_number_bits(kind: Kind, v: int)
    requires
        kind.is_numeric(),
        !kind.is_big(),
        kind.contains(v),
    ensures
        twos_complement(v, kind.width()) < pow256(kind.width()),
        number_of_bits(kind, twos_complement(v, kind.width())) == v,
{
    lemma_pow256_values();
}

/// The value of a scalar is read back from the bytes behind its tag.
pub proof fn lemma_payload_round_trip(kind: Kind, value: Value, rest: Seq<u8>)
    requires
        value.fits(kind),
        payload(kind, value).len() <= u64::MAX,
    ensures
        parse_payload(scalar_tag(kind, value), kind, payload(kind, value) + rest) == Ok::<
            (Value, nat),
            DecodeError,
        >((value, payload(kind, value).len())),
{
    let bytes = payload(kind, value);
    match value {
        Value::Bytes(hash) => {
            assert((bytes + rest).take(kind.width() as int) =~= hash);
        },
        Value::Number(v) => {
            if kind.is_big() {
                let digits = le_minimal(magnitude(v));
                lemma_le_minimal(magnitude(v));
                if !(kind is SignedBig && v == 0) {
                    lemma_framed_round_trip(digits, rest);
                }
            } else {
                let bits = twos_complement(v, kind.width());
                lemma_number_bits(kind, v);
                lemma_le_bytes_len(bits, kind.width());
                lemma_le_value_of_le_bytes(bits, kind.width());
                assert((bytes + rest).take(kind.width() as int) =~= le_bytes(bits, kind.width()));
            }
        },
    }
}

/// The tag of a scalar selects the scalar's kind, and the tag of an array the kind of its
/// elements; no tag does both.
pub proof fn lemma_tags(kind: Kind, value: Value)
    ensures
        scalar_kind(scalar_tag(kind, value)) == Some(kind),
        scalar_kind(array_tag(kind)) is None,
        array_kind(array_tag(kind)) == Some(kind),
{
}

/// A scalar is read back from its canonical bytes, whatever follows them.
pub proof fn lemma_scalar_round_trip(kind: Kind, value: Value, rest: Seq<u8>)
    requires
        value.fits(kind),
        scalar_encoding(kind, value).len() <= u64::MAX,
    ensures
        parse_tagged(scalar_tag(kind, value), payload(kind, value) + rest) == Ok::<
            (TermModel, nat),
            DecodeError,
        >((TermModel::Scalar(kind, value), payload(kind, value).len())),
        parse_term(scalar_encoding(kind, value) + rest) == Ok::<(TermModel, nat), DecodeError>(
            (TermModel::Scalar(kind, value), scalar_encoding(kind, value).len()),
        ),
{
    lemma_tags(kind, value);
    lemma_payload_round_trip(kind, value, rest);
    assert((scalar_encoding(kind, value) + rest).drop_first() =~= payload(kind, value) + rest);
}

/// Parts of one length `width`, one after the other, take `width` bytes each.
proof fn lemma_flatten_len(parts: Seq<Seq<u8>>, width: nat)
    requires
        forall|j: int| 0 <= j < parts.len() ==> (#[trigger] parts[j]).len() == width,
    ensures
        parts.flatten().len() == parts.len() * width,
    decreases parts.len(),
{
    if parts.len() > 0 {
        let tail = parts.drop_first();
        assert forall|j: int| 0 <= j < tail.len() implies (#[trigger] tail[j]).len() == width by {
            assert(tail[j] == parts[j + 1]);
        }
        lemma_flatten_len(tail, width);
        assert(parts.len() * width == tail.len() * width + width) by (nonlinear_arith)
            requires
                parts.len() == tail.len() + 1,
        ;
    }
}

/// Of parts of one length `width`, one after the other, the part `i` stands at `i * width`.
proof fn lemma_flatten_chunk(parts: Seq<Seq<u8>>, width: nat, i: int)
    requires
        forall|j: int| 0 <= j < parts.len() ==> (#[trigger] parts[j]).len() == width,
        0 <= i < parts.len(),
    ensures
        (i + 1) * width <= parts.flatten().len(),
        parts.flatten().subrange(i * width, (i + 1) * width) == parts[i],
    decreases parts.len(),
{
    let tail = parts.drop_first();
    assert forall|j: int| 0 <= j < tail.len() implies (#[trigger] tail[j]).len() == width by {
        assert(tail[j] == parts[j + 1]);
    }
    lemma_flatten_len(parts, width);
    lemma_flatten_len(tail, width);
    assert((i + 1) * width <= parts.len() * width) by (nonlinear_arith)
        requires
            i + 1 <= parts.len(),
    ;
    let flat = parts.flatten();
    let tail_flat = tail.flatten();
    let from = i * width;
    let to = (i + 1) * width;
    assert(flat == parts.first() + tail_flat);
    assert(to == from + width) by (nonlinear_arith)
        requires
            from == i * width,
            to == (i + 1) * width,
    ;
    if i == 0 {
        assert(flat.subrange(from, to) =~= parts[0]);
    } else {
        lemma_flatten_chunk(tail, width, i - 1);
        assert((i - 1) * width == from - width) by (nonlinear_arith)
            requires
                from == i * width,
        ;
        assert((i - 1 + 1) * width == from);
        assert(from >= width) by (nonlinear_arith)
            requires
                from == i * width,
                i >= 1,
        ;
        assert(tail[i - 1] == parts[i]);
        assert(flat.subrange(from, to) =~= tail_flat.subrange(from - width, from));
    }
}

/// Elements of fixed width are read back from their bytes.
proof fn lemma_fixed_elements_round_trip(kind: Kind, elements: Seq<Value>)
    requires
        !kind.is_big(),
        forall|i: int| 0 <= i < elements.len() ==> (#[trigger] elements[i]).fits(kind),
    ensures
        elements_bytes(kind, elements).len() == elements.len() * kind.width(),
        parse_fixed_elements(kind, elements_bytes(kind, elements)) == elements,
{
    let width = kind.width();
    let parts = elements_parts(kind, elements);
    let body = elements_bytes(kind, elements);
    assert forall|j: int| 0 <= j < parts.len() implies (#[trigger] parts[j]).len() == width by {
        assert(elements[j].fits(kind));
        if let Value::Number(v) = elements[j] {
            lemma_le_bytes_len(twos_complement(v, width), width);
        }
    }
    lemma_flatten_len(parts, width);
    assert((elements.len() * width) / width == elements.len()) by (nonlinear_arith)
        requires
            width > 0,
    ;
    let parsed = parse_fixed_elements(kind, body);
    assert forall|i: int| 0 <= i < elements.len() implies parsed[i] == elements[i] by {
        lemma_flatten_chunk(parts, width, i);
        assert(elements[i].fits(kind));
        match elements[i] {
            Value::Bytes(_) => {},
            Value::Number(v) => {
                lemma_number_bits(kind, v);
                lemma_le_value_of_le_bytes(twos_complement(v, width), width);
            },
        }
    }
    assert(parsed =~= elements);
}

/// Integers of any size are read back from their canonical bytes, one after the other.
proof fn lemma_big_elements_round_trip(kind: Kind, elements: Seq<Value>)
    requires
        kind.is_big(),
        forall|i: int| 0 <= i < elements.len() ==> (#[trigger] elements[i]).fits(kind),
        elements_bytes(kind, elements).len() <= u64::MAX,
    ensures
        parse_big_elements(kind, elements_bytes(kind, elements)) == Ok::<Seq<Value>, DecodeError>(
            elements,
        ),
    decreases elements.len(),
{
    let parts = elements_parts(kind, elements);
    let body = elements_bytes(kind, elements);
    if elements.len() == 0 {
        assert(parts =~= Seq::<Seq<u8>>::empty());
        assert(elements =~= Seq::<Value>::empty());
        assert(body.len() == 0);
    } else {
        let first = elements[0];
        let tail = elements.drop_first();
        let tail_bytes = elements_bytes(kind, tail);
        assert(parts.drop_first() =~= elements_parts(kind, tail));
        assert(body == scalar_encoding(kind, first) + tail_bytes);
        assert(first.fits(kind));
        assert forall|i: int| 0 <= i < tail.len() implies (#[trigger] tail[i]).fits(kind) by {
            assert(tail[i] == elements[i + 1]);
        }
        lemma_tags(kind, first);
        lemma_payload_round_trip(kind, first, tail_bytes);
        lemma_big_elements_round_trip(kind, tail);
        assert(body[0] == scalar_tag(kind, first));
        assert(body.drop_first() =~= payload(kind, first) + tail_bytes);
        assert(body.skip(1 + payload(kind, first).len() as int) =~= tail_bytes);
        assert(seq![first] + tail =~= elements);
        assert(body.len() > 0);
        assert(parse_payload(body[0], kind, body.drop_first()) == Ok::<(Value, nat), DecodeError>(
            (first, payload(kind, first).len()),
        ));
        assert(parse_big_elements(kind, tail_bytes) == Ok::<Seq<Value>, DecodeError>(tail));
    }
}

/// The bytes of an array behind its tag: the length that is announced, then the elements.
pub open spec fn array_body(kind: Kind, elements: Seq<Value>) -> Seq<u8> {
    length_prefix(announced_length(kind, elements)) + elements_bytes(kind, elements)
}

/// The hashes of an array are read back from the bytes behind its tag.
proof fn lemma_hash_array_body_round_trip(kind: Kind, elements: Seq<Value>, rest: Seq<u8>)
    requires
        kind.is_hash(),
        forall|i: int| 0 <= i < elements.len() ==> (#[trigger] elements[i]).fits(kind),
        array_body(kind, elements).len() <= u64::MAX,
    ensures
        parse_array(kind, array_body(kind, elements) + rest) == Ok::<
            (Seq<Value>, nat),
            DecodeError,
        >((elements, array_body(kind, elements).len())),
{
    let body = elements_bytes(kind, elements);
    let prefix = length_prefix(elements.len());
    let bytes = array_body(kind, elements) + rest;
    lemma_fixed_elements_round_trip(kind, elements);
    assert(elements.len() <= elements.len() * kind.width()) by (nonlinear_arith)
        requires
            kind.width() >= 1,
    ;
    lemma_parse_length_prefix(elements.len(), body + rest);
    assert(bytes =~= prefix + (body + rest));
    assert(bytes.subrange(
        prefix.len() as int,
        (prefix.len() + elements.len() * kind.width()) as int,
    ) =~= body);
}

/// The integers of an array are read back from the bytes behind its tag.
proof fn lemma_number_array_body_round_trip(kind: Kind, elements: Seq<Value>, rest: Seq<u8>)
    requires
        !kind.is_hash(),
        forall|i: int| 0 <= i < elements.len() ==> (#[trigger] elements[i]).fits(kind),
        array_body(kind, elements).len() <= u64::MAX,
    ensures
        parse_array(kind, array_body(kind, elements) + rest) == Ok::<
            (Seq<Value>, nat),
            DecodeError,
        >((elements, array_body(kind, elements).len())),
{
    let body = elements_bytes(kind, elements);
    lemma_framed_round_trip(body, rest);
    assert(array_body(kind, elements) + rest =~= framed(body) + rest);
    if kind.is_big() {
        lemma_big_elements_round_trip(kind, elements);
    } else {
        lemma_fixed_elements_round_trip(kind, elements);
        assert((elements.len() * kind.width()) % kind.width() == 0) by (nonlinear_arith)
            requires
                kind.width() > 0,
        ;
    }
}

/// An array is read back from its canonical bytes, whatever follows them.
pub proof fn lemma_array_round_trip(kind: Kind, elements: Seq<Value>, rest: Seq<u8>)
    requires
        forall|i: int| 0 <= i < elements.len() ==> (#[trigger] elements[i]).fits(kind),
        array_encoding(kind, elements).len() <= u64::MAX,
    ensures
        parse_term(array_encoding(kind, elements) + rest) == Ok::<(TermModel, nat), DecodeError>(
            (TermModel::Array(kind, elements), array_encoding(kind, elements).len()),
        ),
{
    let encoded = array_encoding(kind, elements);
    lemma_tags(kind, Value::Number(0));
    assert(encoded =~= seq![array_tag(kind)] + array_body(kind, elements));
    assert((encoded + rest).drop_first() =~= array_body(kind, elements) + rest);
    if kind.is_hash() {
        lemma_hash_array_body_round_trip(kind, elements, rest);
    } else {
        lemma_number_array_body_round_trip(kind, elements, rest);
    }
}

/// Round trip: the canonical bytes of a term are read back as that term, and to their
/// end, whatever follows them. The term is well formed and its bytes are fewer than
/// `2^64`, the most that a length prefix can announce.
pub proof fn lemma_round_trip(term: TermModel, rest: Seq<u8>)
    requires
        term.well_formed(),
        term.encoding().len() <= u64::MAX,
    ensures
        parse_term(term.encoding() + rest) == Ok::<(TermModel, nat), DecodeError>(
            (term, term.encoding().len()),
        ),
{
    match term {
        TermModel::Scalar(kind, value) => {
            lemma_scalar_round_trip(kind, value, rest);
        },
        TermModel::Array(kind, elements) => {
            lemma_array_round_trip(kind, elements, rest);
        },
    }
}

/// Round trip of the terms of the machine: what `encode` writes for a term, `decode` reads
/// as a term with the same model, and to the end of what was written, whatever follows.
pub proof fn lemma_term_round_trip(term: VmTerm, rest: Seq<u8>)
    requires
        term.encoding().len() <= u64::MAX,
    ensures
        VmTerm::decoding(term.encoding() + rest) == Ok::<(TermModel, nat), DecodeError>(
            (term@, term.encoding().len()),
        ),
{
    lemma_view_well_formed(term);
    lemma_round_trip(term@, rest);
}

/// Sign disjointness: a signed integer of any size is written under the tag `0x0e` if it
/// is below zero, `0x0f` if it is above and `0x10` if it is zero, and of the bytes that
/// can be read, those that start with `0x0e` denote a number below zero, those that start
/// with `0x0f` one above zero.
pub proof fn lemma_sign_tags(v: int, bytes: Seq<u8>)
    ensures
        v < 0 <==> scalar_encoding(Kind::SignedBig, Value::Number(v))[0] == 0x0e,
        v > 0 <==> scalar_encoding(Kind::SignedBig, Value::Number(v))[0] == 0x0f,
        v == 0 <==> scalar_encoding(Kind::SignedBig, Value::Number(v)) == seq![0x10u8],
        bytes.len() > 0 && bytes[0] == 0x0e ==> (parse_term(bytes) matches Ok((term, _))
            ==> term matches TermModel::Scalar(Kind::SignedBig, Value::Number(read)) && read < 0),
        bytes.len() > 0 && bytes[0] == 0x0f ==> (parse_term(bytes) matches Ok((term, _))
            ==> term matches TermModel::Scalar(Kind::SignedBig, Value::Number(read)) && read > 0),
{
    let encoded = scalar_encoding(Kind::SignedBig, Value::Number(v));
    if v == 0 {
        assert(encoded =~= seq![0x10u8]);
    } else {
        assert(encoded[0] != 0x10);
    }
}

/// Framed bytes that are read are the bytes that `framed` writes for them.
proof fn lemma_parse_framed_canonical(bytes: Seq<u8>)
    ensures
        parse_framed(bytes) matches Ok((body, used)) ==> used <= bytes.len() && body.len()
            <= u64::MAX && framed(body) == bytes.take(used as int),
{
    lemma_parse_length_canonical(bytes);
    if let Ok((body, used)) = parse_framed(bytes) {
        let (n, prefix_len) = parse_length(bytes)->Ok_0;
        assert(body.len() == n);
        assert(bytes.take(prefix_len as int) + body =~= bytes.take(used as int));
    }
}

/// Bits under `256^width` are the two's complement form of the number that they stand for
/// in a kind of that width, which is a number of the kind.
proof fn lemma_bits_canonical(kind: Kind, bits: nat)
    requires
        kind.is_numeric(),
        !kind.is_big(),
        bits < pow256(kind.width()),
    ensures
        kind.contains(number_of_bits(kind, bits)),
        twos_complement(number_of_bits(kind, bits), kind.width()) == bits,
{
    lemma_pow256_values();
}

/// A value of fixed width that is read from a chunk of its width is written as the chunk.
proof fn lemma_fixed_value_canonical(kind: Kind, chunk: Seq<u8>)
    requires
        !kind.is_big(),
        chunk.len() == kind.width(),
    ensures
        fixed_value(kind, chunk).fits(kind),
        payload(kind, fixed_value(kind, chunk)) == chunk,
{
    if !kind.is_hash() {
        lemma_le_value_bound(chunk);
        lemma_bits_canonical(kind, le_value(chunk));
        lemma_le_bytes_of_le_value(chunk);
    }
}

/// The value of a scalar that is read is written as the bytes it was read from, under the
/// tag it was read behind.
proof fn lemma_payload_canonical(tag: u8, kind: Kind, bytes: Seq<u8>)
    requires
        scalar_kind(tag) == Some(kind),
    ensures
        parse_payload(tag, kind, bytes) matches Ok((value, used)) ==> used <= bytes.len()
            && value.fits(kind) && scalar_tag(kind, value) == tag && payload(kind, value)
            == bytes.take(used as int),
{
    if let Ok((value, used)) = parse_payload(tag, kind, bytes) {
        if kind.is_big() {
            if !(kind is SignedBig && tag == 0x10) {
                lemma_parse_framed_canonical(bytes);
                let body = parse_framed(bytes)->Ok_0.0;
                lemma_le_minimal_unique(body);
            } else {
                assert(bytes.take(0) =~= Seq::<u8>::empty());
            }
        } else {
            lemma_fixed_value_canonical(kind, bytes.take(kind.width() as int));
        }
    }
}

/// The values of fixed width that are read from a body are written as the body.
proof fn lemma_fixed_elements_canonical(kind: Kind, body: Seq<u8>)
    requires
        !kind.is_big(),
        body.len() % kind.width() == 0,
    ensures
        parse_fixed_elements(kind, body).len() * kind.width() == body.len(),
        forall|i: int|
            0 <= i < parse_fixed_elements(kind, body).len() ==> (#[trigger] parse_fixed_elements(
                kind,
                body,
            )[i]).fits(kind),
        elements_bytes(kind, parse_fixed_elements(kind, body)) == body,
{
    let width = kind.width();
    let elements = parse_fixed_elements(kind, body);
    let parts = elements_parts(kind, elements);
    let count = elements.len();
    assert(count * width == body.len()) by (nonlinear_arith)
        requires
            width > 0,
            count == body.len() / width,
            body.len() % width == 0,
    ;
    assert forall|i: int| 0 <= i < count implies (#[trigger] elements[i]).fits(kind) by {
        assert(0 <= i * width && (i + 1) * width <= count * width) by (nonlinear_arith)
            requires
                0 <= i < count,
                width > 0,
        ;
        assert((i + 1) * width - i * width == width) by (nonlinear_arith);
        lemma_fixed_value_canonical(kind, body.subrange(i * width, (i + 1) * width));
    }
    assert forall|j: int| 0 <= j < parts.len() implies (#[trigger] parts[j]).len() == width
        && parts[j] == body.subrange(j * width, (j + 1) * width) by {
        assert(0 <= j * width && (j + 1) * width <= count * width) by (nonlinear_arith)
            requires
                0 <= j < count,
                width > 0,
        ;
        assert((j + 1) * width - j * width == width) by (nonlinear_arith);
        lemma_fixed_value_canonical(kind, body.subrange(j * width, (j + 1) * width));
    }
    lemma_flatten_len(parts, width);
    let flat = parts.flatten();
    assert forall|j: int| 0 <= j < flat.len() implies flat[j] == body[j] by {
        let i = j / (width as int);
        assert(0 <= i < count && i * width <= j < (i + 1) * width) by (nonlinear_arith)
            requires
                i == j / (width as int),
                0 <= j < count * width,
                width > 0,
        ;
        lemma_flatten_chunk(parts, width, i);
        assert(flat.subrange(i * width, (i + 1) * width)[j - i * width] == flat[j]);
        assert(body.subrange(i * width, (i + 1) * width)[j - i * width] == body[j]);
    }
    assert(flat =~= body);
}

/// The integers of any size that are read from a body are written as the body.
proof fn lemma_big_elements_canonical(kind: Kind, body: Seq<u8>)
    requires
        kind.is_big(),
    ensures
        parse_big_elements(kind, body) matches Ok(elements) ==> elements_bytes(kind, elements)
            == body && forall|i: int|
            0 <= i < elements.len() ==> (#[trigger] elements[i]).fits(kind),
    decreases body.len(),
{
    if let Ok(elements) = parse_big_elements(kind, body) {
        if body.len() == 0 {
            assert(elements_parts(kind, elements) =~= Seq::<Seq<u8>>::empty());
        } else {
            let behind = body.drop_first();
            lemma_payload_canonical(body[0], kind, behind);
            let (value, used) = parse_payload(body[0], kind, behind)->Ok_0;
            let tail = body.skip(1 + used as int);
            lemma_big_elements_canonical(kind, tail);
            let others = parse_big_elements(kind, tail)->Ok_0;
            assert(elements == seq![value] + others);
            let parts = elements_parts(kind, elements);
            assert(parts.drop_first() =~= elements_parts(kind, others));
            assert(parts.first() == scalar_encoding(kind, value));
            assert(scalar_encoding(kind, value) =~= body.take(1 + used as int)) by {
                assert(seq![body[0]] + behind.take(used as int) =~= body.take(1 + used as int));
            }
            assert(body.take(1 + used as int) + tail =~= body);
            assert forall|i: int| 0 <= i < elements.len() implies (#[trigger] elements[i]).fits(
                kind,
            ) by {
                if i > 0 {
                    assert(elements[i] == others[i - 1]);
                }
            }
        }
    }
}

/// The hashes of an array that are read are written as the bytes they were read from.
proof fn lemma_hash_array_canonical(kind: Kind, bytes: Seq<u8>)
    requires
        kind.is_hash(),
    ensures
        parse_array(kind, bytes) matches Ok((elements, used)) ==> used <= bytes.len()
            && array_body(kind, elements) == bytes.take(used as int) && forall|i: int|
            0 <= i < elements.len() ==> (#[trigger] elements[i]).fits(kind),
{
    lemma_parse_length_canonical(bytes);
    if let Ok((elements, used)) = parse_array(kind, bytes) {
        let (count, prefix_len) = parse_length(bytes)->Ok_0;
        let width = kind.width();
        let body = bytes.subrange(prefix_len as int, (prefix_len + count * width) as int);
        assert((count * width) % width == 0) by (nonlinear_arith)
            requires
                width > 0,
        ;
        lemma_fixed_elements_canonical(kind, body);
        assert(elements.len() == count) by (nonlinear_arith)
            requires
                elements.len() * width == count * width,
                width > 0,
        ;
        assert(bytes.take(prefix_len as int) + body =~= bytes.take(used as int));
    }
}

/// The integers of an array that are read are written as the bytes they were read from.
proof fn lemma_number_array_canonical(kind: Kind, bytes: Seq<u8>)
    requires
        !kind.is_hash(),
    ensures
        parse_array(kind, bytes) matches Ok((elements, used)) ==> used <= bytes.len()
            && array_body(kind, elements) == bytes.take(used as int) && forall|i: int|
            0 <= i < elements.len() ==> (#[trigger] elements[i]).fits(kind),
{
    lemma_parse_framed_canonical(bytes);
    if let Ok((elements, used)) = parse_array(kind, bytes) {
        let body = parse_framed(bytes)->Ok_0.0;
        if kind.is_big() {
            lemma_big_elements_canonical(kind, body);
        } else {
            lemma_fixed_elements_canonical(kind, body);
        }
    }
}

/// An array that is read behind its tag is written as that tag and the bytes it was read
/// from.
proof fn lemma_array_term_canonical(tag: u8, kind: Kind, behind: Seq<u8>)
    requires
        array_kind(tag) == Some(kind),
    ensures
        parse_array(kind, behind) matches Ok((elements, used)) ==> used <= behind.len()
            && TermModel::Array(kind, elements).well_formed() && array_encoding(kind, elements)
            == seq![tag] + behind.take(used as int),
{
    if kind.is_hash() {
        lemma_hash_array_canonical(kind, behind);
    } else {
        lemma_number_array_canonical(kind, behind);
    }
    if let Ok((elements, used)) = parse_array(kind, behind) {
        assert(array_encoding(kind, elements) =~= seq![array_tag(kind)] + array_body(
            kind,
            elements,
        ));
    }
}

/// A term that is read behind its tag is written as that tag and the bytes it was read
/// from.
proof fn lemma_tagged_canonical(tag: u8, behind: Seq<u8>)
    ensures
        parse_tagged(tag, behind) matches Ok((term, used)) ==> used <= behind.len()
            && term.well_formed() && term.encoding() == seq![tag] + behind.take(used as int),
{
    match scalar_kind(tag) {
        Some(kind) => {
            lemma_payload_canonical(tag, kind, behind);
        },
        None => {
            match array_kind(tag) {
                Some(kind) => {
                    lemma_array_term_canonical(tag, kind, behind);
                },
                None => {},
            }
        },
    }
}

/// One form only: the bytes that are read as a term are the canonical bytes of that term,
/// which is well formed. No other bytes are read as the term: not a length in a wider form
/// than it needs, not a magnitude with a most significant zero byte, not a zero behind the
/// tag of a negative or a positive number.
pub proof fn lemma_decode_canonical(bytes: Seq<u8>)
    ensures
        parse_term(bytes) matches Ok((term, used)) ==> used <= bytes.len() && term.well_formed()
            && term.encoding() == bytes.take(used as int),
{
    if let Ok((term, used)) = parse_term(bytes) {
        let behind = bytes.drop_first();
        lemma_tagged_canonical(bytes[0], behind);
        assert(seq![bytes[0]] + behind.take(used - 1) =~= bytes.take(used as int));
    }
}

/// Every term costs something: the virtual size of a well-formed term is at least one byte,
/// and that of an array or of an integer of any size at least the three words of an empty
/// container.
pub proof fn lemma_size_positive(term: TermModel)
    requires
        term.well_formed(),
    ensures
        term.virtual_size() >= 1,
        term is Array || term.kind().is_big() ==> term.virtual_size() >= EMPTY_VEC_HEAP_SIZE,
{
}

} // verus!
