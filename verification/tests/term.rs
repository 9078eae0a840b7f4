use purplecoin_vm::bigint::BigSigned;
use purplecoin_vm::bigint::BigUnsigned;
use purplecoin_vm::codec;
use purplecoin_vm::term::VmTerm;

#[test]
fn test_hash160_encode_decode() {
    let t = VmTerm::Hash160([0xff; 20]);
    let encoded = codec::encode_to_vec(&t).unwrap();
    assert_eq!(&encoded[..1], &[0x00]);
    assert_eq!(encoded.len(), 21);
    assert_eq!(codec::decode::<VmTerm>(&encoded).unwrap(), t);
}

#[test]
fn test_hash256_encode_decode() {
    let t = VmTerm::Hash256([0xff; 32]);
    let encoded = codec::encode_to_vec(&t).unwrap();
    assert_eq!(&encoded[..1], &[0x01]);
    assert_eq!(encoded.len(), 33);
    assert_eq!(codec::decode::<VmTerm>(&encoded).unwrap(), t);
}

#[test]
fn test_hash512_encode_decode() {
    let t = VmTerm::Hash512([0xff; 64]);
    let encoded = codec::encode_to_vec(&t).unwrap();
    assert_eq!(&encoded[..1], &[0x02]);
    assert_eq!(encoded.len(), 65);
    assert_eq!(codec::decode::<VmTerm>(&encoded).unwrap(), t);
}

#[test]
fn test_u8_encode_decode() {
    let t = VmTerm::Unsigned8(12);
    let encoded = codec::encode_to_vec(&t).unwrap();
    assert_eq!(&encoded[..1], &[0x03]);
    assert_eq!(codec::decode::<VmTerm>(&encoded).unwrap(), t);
}

#[test]
fn test_u16_encode_decode() {
    let t = VmTerm::Unsigned16(12324);
    let encoded = codec::encode_to_vec(&t).unwrap();
    assert_eq!(&encoded[..1], &[0x04]);
    assert_eq!(codec::decode::<VmTerm>(&encoded).unwrap(), t);
}

#[test]
fn test_u32_encode_decode() {
    let t = VmTerm::Unsigned32(1254324324);
    let encoded = codec::encode_to_vec(&t).unwrap();
    assert_eq!(&encoded[..1], &[0x05]);
    assert_eq!(codec::decode::<VmTerm>(&encoded).unwrap(), t);
}

#[test]
fn test_u64_encode_decode() {
    let t = VmTerm::Unsigned64(143254324324);
    let encoded = codec::encode_to_vec(&t).unwrap();
    assert_eq!(&encoded[..1], &[0x06]);
    assert_eq!(codec::decode::<VmTerm>(&encoded).unwrap(), t);
}

#[test]
fn test_u128_encode_decode() {
    let t = VmTerm::Unsigned128(143254354354324324);
    let encoded = codec::encode_to_vec(&t).unwrap();
    assert_eq!(&encoded[..1], &[0x07]);
    assert_eq!(codec::decode::<VmTerm>(&encoded).unwrap(), t);
}

#[test]
fn test_u256_encode_decode() {
    let i = BigUnsigned::from_u128(42432);
    let t = VmTerm::UnsignedBig(i);
    let encoded = codec::encode_to_vec(&t).unwrap();
    assert_eq!(&encoded[..1], &[0x08]);
    assert_eq!(codec::decode::<VmTerm>(&encoded).unwrap(), t);
}

#[test]
fn test_i8_encode_decode_negative() {
    let t = VmTerm::Signed8(-14);
    let encoded = codec::encode_to_vec(&t).unwrap();
    assert_eq!(&encoded[..1], &[0x09]);
    assert_eq!(codec::decode::<VmTerm>(&encoded).unwrap(), t);
}

#[test]
fn test_i8_encode_decode_positive() {
    let t = VmTerm::Signed8(12);
    let encoded = codec::encode_to_vec(&t).unwrap();
    assert_eq!(&encoded[..1], &[0x09]);
    assert_eq!(codec::decode::<VmTerm>(&encoded).unwrap(), t);
}

#[test]
fn test_i16_encode_decode_negative() {
    let t = VmTerm::Signed16(-14423);
    let encoded = codec::encode_to_vec(&t).unwrap();
    assert_eq!(&encoded[..1], &[0x0a]);
    assert_eq!(codec::decode::<VmTerm>(&encoded).unwrap(), t);
}

#[test]
fn test_i16_encode_decode_positive() {
    let t = VmTerm::Signed16(12324);
    let encoded = codec::encode_to_vec(&t).unwrap();
    assert_eq!(&encoded[..1], &[0x0a]);
    assert_eq!(codec::decode::<VmTerm>(&encoded).unwrap(), t);
}

#[test]
fn test_i32_encode_decode_negative() {
    let t = VmTerm::Signed32(-1432543423);
    let encoded = codec::encode_to_vec(&t).unwrap();
    assert_eq!(&encoded[..1], &[0x0b]);
    assert_eq!(codec::decode::<VmTerm>(&encoded).unwrap(), t);
}

#[test]
fn test_i32_encode_decode_positive() {
    let t = VmTerm::Signed32(1254324324);
    let encoded = codec::encode_to_vec(&t).unwrap();
    assert_eq!(&encoded[..1], &[0x0b]);
    assert_eq!(codec::decode::<VmTerm>(&encoded).unwrap(), t);
}

#[test]
fn test_i64_encode_decode_negative() {
    let t = VmTerm::Signed64(-143254423423);
    let encoded = codec::encode_to_vec(&t).unwrap();
    assert_eq!(&encoded[..1], &[0x0c]);
    assert_eq!(codec::decode::<VmTerm>(&encoded).unwrap(), t);
}

#[test]
fn test_i64_encode_decode_positive() {
    let t = VmTerm::Signed64(143254324324);
    let encoded = codec::encode_to_vec(&t).unwrap();
    assert_eq!(&encoded[..1], &[0x0c]);
    assert_eq!(codec::decode::<VmTerm>(&encoded).unwrap(), t);
}

#[test]
fn test_i128_encode_decode_negative() {
    let t = VmTerm::Signed128(-143254432432423423423);
    let encoded = codec::encode_to_vec(&t).unwrap();
    assert_eq!(&encoded[..1], &[0x0d]);
    assert_eq!(codec::decode::<VmTerm>(&encoded).unwrap(), t);
}

#[test]
fn test_i128_encode_decode_positive() {
    let t = VmTerm::Signed128(143254324324);
    let encoded = codec::encode_to_vec(&t).unwrap();
    assert_eq!(&encoded[..1], &[0x0d]);
    assert_eq!(codec::decode::<VmTerm>(&encoded).unwrap(), t);
}

#[test]
fn test_i256_encode_decode_negative() {
    let i = BigSigned::from_i128(-42432);
    let t = VmTerm::SignedBig(i);
    let encoded = codec::encode_to_vec(&t).unwrap();
    assert_eq!(&encoded[..1], &[0x0e]);
    assert_eq!(codec::decode::<VmTerm>(&encoded).unwrap(), t);
}

#[test]
fn test_i256_encode_decode_positive() {
    let i = BigSigned::from_i128(42432);
    let t = VmTerm::SignedBig(i);
    let encoded = codec::encode_to_vec(&t).unwrap();
    assert_eq!(&encoded[..1], &[0x0f]);
    assert_eq!(codec::decode::<VmTerm>(&encoded).unwrap(), t);
}

#[test]
fn test_i256_encode_decode_zero() {
    let i = BigSigned::from_i128(0);
    let t = VmTerm::SignedBig(i);
    let encoded = codec::encode_to_vec(&t).unwrap();
    assert_eq!(&encoded, &[0x10]);
    assert_eq!(codec::decode::<VmTerm>(&encoded).unwrap(), t);
}

#[test]
fn test_equals_1() {
    assert_eq!(VmTerm::Unsigned8(1).equals_1(), true);
    assert_eq!(VmTerm::Unsigned16(1).equals_1(), true);
    assert_eq!(VmTerm::Unsigned32(1).equals_1(), true);
    assert_eq!(VmTerm::Unsigned64(1).equals_1(), true);
    assert_eq!(VmTerm::Unsigned128(1).equals_1(), true);
    assert_eq!(VmTerm::UnsignedBig(BigUnsigned::from_u128(1)).equals_1(), true);
    assert_eq!(VmTerm::Signed8(1).equals_1(), true);
    assert_eq!(VmTerm::Signed16(1).equals_1(), true);
    assert_eq!(VmTerm::Signed32(1).equals_1(), true);
    assert_eq!(VmTerm::Signed64(1).equals_1(), true);
    assert_eq!(VmTerm::Signed128(1).equals_1(), true);
    assert_eq!(VmTerm::SignedBig(BigSigned::from_i128(1)).equals_1(), true);

    assert_eq!(VmTerm::Unsigned8(10).equals_1(), false);
    assert_eq!(VmTerm::Unsigned16(10).equals_1(), false);
    assert_eq!(VmTerm::Unsigned32(10).equals_1(), false);
    assert_eq!(VmTerm::Unsigned64(10).equals_1(), false);
    assert_eq!(VmTerm::Unsigned128(10).equals_1(), false);
    assert_eq!(VmTerm::UnsignedBig(BigUnsigned::from_u128(10)).equals_1(), false);
    assert_eq!(VmTerm::Signed8(10).equals_1(), false);
    assert_eq!(VmTerm::Signed16(10).equals_1(), false);
    assert_eq!(VmTerm::Signed32(10).equals_1(), false);
    assert_eq!(VmTerm::Signed64(10).equals_1(), false);
    assert_eq!(VmTerm::Signed128(10).equals_1(), false);
    assert_eq!(VmTerm::SignedBig(BigSigned::from_i128(10)).equals_1(), false);
}
