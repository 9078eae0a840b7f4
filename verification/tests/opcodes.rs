use purplecoin_vm::codec;
use purplecoin_vm::opcodes::OP;

#[test]
fn it_encodes_opcode_to_byte() {
    let encoded = codec::encode_to_vec(&OP::Func).unwrap();
    assert_eq!(encoded.as_slice(), &[0x00]);
    let encoded = codec::encode_to_vec(&OP::PushCoinbaseOut).unwrap();
    assert_eq!(encoded.as_slice(), &[0xe1]);
    let encoded = codec::encode_to_vec(&OP::Nop).unwrap();
    assert_eq!(encoded.as_slice(), &[0xff]);
}

#[test]
fn every_byte_is_at_most_one_opcode() {
    let mut known = 0;
    for byte in 0..=255u8 {
        match OP::from_u8(byte) {
            Some(op) => {
                known += 1;
                assert_eq!(op.to_u8(), byte);
                assert_eq!(codec::encode_to_vec(&op).unwrap(), vec![byte]);
                assert_eq!(codec::decode::<OP>(&[byte, 0x55]), Ok(op));
            }
            None => {
                assert_eq!(
                    codec::decode::<OP>(&[byte]),
                    Err(codec::DecodeError::InvalidOpcode)
                );
            }
        }
    }
    assert_eq!(known, 184);
    assert_eq!(codec::decode::<OP>(&[]), Err(codec::DecodeError::UnexpectedEnd));
}

#[test]
fn opcode_bytes_are_fixed() {
    assert_eq!(OP::Func.to_u8(), 0x00);
    assert_eq!(OP::ChainId.to_u8(), 0x07);
    assert_eq!(OP::Hash160Var.to_u8(), 0x20);
    assert_eq!(OP::SignedBigArrayVar.to_u8(), 0x3f);
    assert_eq!(OP::Add.to_u8(), 0x50);
    assert_eq!(OP::Loop.to_u8(), 0x57);
    assert_eq!(OP::Verify.to_u8(), 0xb7);
    assert_eq!(OP::CastTo.to_u8(), 0xca);
    assert_eq!(OP::Ripemd160.to_u8(), 0xfe);
    assert_eq!(OP::from_u8(0x01), None);
    assert_eq!(OP::from_u8(0x81), None);
    assert_eq!(OP::from_u8(0xb0), Some(OP::Concat));
}
