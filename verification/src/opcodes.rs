//! The instruction set: a closed table of instructions, one byte each.

use vstd::prelude::*;
use crate::codec::Decode;
use crate::codec::DecodeError;
use crate::codec::Encode;
use crate::codec::WriteError;

verus! {

/// An instruction of the machine.
#[allow(non_camel_case_types)]
#[derive(Clone, Copy, Debug, PartialEq, Eq, Structural)]
pub enum OP {
    Func,
    ChainId,
    ChainHeight,
    ChainTimestamp,
    IsCoinbase,
    PrevBlockHash,
    NSequence,
    RandomHash160Var,
    RandomHash256Var,
    RandomHash512Var,
    RandomUnsigned8,
    RandomUnsigned16,
    RandomUnsigned32,
    RandomUnsigned64,
    RandomUnsigned128,
    RandomSigned8,
    RandomSigned16,
    RandomSigned32,
    RandomSigned64,
    RandomSigned128,
    Hash160Var,
    Hash256Var,
    Hash512Var,
    Unsigned8Var,
    Unsigned16Var,
    Unsigned32Var,
    Unsigned64Var,
    Unsigned128Var,
    UnsignedBigVar,
    Signed8Var,
    Signed16Var,
    Signed32Var,
    Signed64Var,
    Signed128Var,
    SignedBigVar,
    Hash160ArrayVar,
    Hash256ArrayVar,
    Hash512ArrayVar,
    Unsigned8ArrayVar,
    Unsigned16ArrayVar,
    Unsigned32ArrayVar,
    Unsigned64ArrayVar,
    Unsigned128ArrayVar,
    UnsignedBigArrayVar,
    Signed8ArrayVar,
    Signed16ArrayVar,
    Signed32ArrayVar,
    Signed64ArrayVar,
    Signed128ArrayVar,
    SignedBigArrayVar,
    ArrayLen,
    GetType,
    IsNaN,
    IsInf,
    IsMinusInf,
    ClearStack,
    Add,
    Sub,
    Mult,
    Div,
    BitSHLeft,
    BitSHRight,
    BitXOR,
    Loop,
    Break,
    BreakIf,
    BreakIfn,
    BreakIfEq,
    BreakIfNeq,
    BreakIfLeq,
    BreakIfGeq,
    BreakIfLt,
    BreakIfGt,
    Continue,
    ContinueIf,
    ContinueIfn,
    ContinueIfEq,
    ContinueIfNeq,
    ContinueIfLeq,
    ContinueIfGeq,
    ContinueIfLt,
    ContinueIfGt,
    Depth,
    IfDup,
    Drop,
    Dup,
    Nip,
    Over,
    Pick,
    Roll,
    Rot,
    Swap,
    Tuck,
    Drop2,
    Dup2,
    Dup3,
    Over2,
    Rot2,
    Swap2,
    Size,
    Substr,
    Left,
    Right,
    BitInvert,
    IsUTF8,
    Add1,
    Sub1,
    Min,
    Max,
    Within,
    BoolAnd,
    BoolOr,
    Negate,
    Abs,
    PushPrevScriptOuts,
    PushPrevScriptOutsLen,
    PushPrevScriptOut,
    PushExecCount,
    FlushToScriptOuts,
    PopToScriptOuts,
    PickToScriptOuts,
    ToHex,
    FromHex,
    Call,
    Concat,
    Eq,
    Neq,
    If,
    Ifn,
    Else,
    End,
    Verify,
    ReturnFunc,
    Return,
    EqVerify,
    Lt,
    Gt,
    Leq,
    Geq,
    IfLt,
    IfGt,
    IfLeq,
    IfGeq,
    IfEq,
    IfNeq,
    LtVerify,
    GtVerify,
    LeqVerify,
    GeqVerify,
    NeqVerify,
    CastTo,
    PushOut,
    PushOutVerify,
    PushCoinbaseOut,
    PushColouredCoinbaseOut,
    PushOutIf,
    PushOutIfEq,
    PushOutIfNeq,
    PushOutIfLt,
    PushOutIfGt,
    PushOutIfLeq,
    PushOutIfGeq,
    HasInput,
    HasOutput,
    HasColouredInput,
    HasColouredOutput,
    Sha256,
    Sha512,
    Keccak256,
    Keccak512,
    Blake2b256,
    Blake2b512,
    Blake3_160,
    Blake3_256,
    Blake3_512,
    Blake3_256_160,
    Blake3_256Keyed,
    Blake3_512Keyed,
    Blake3_160Keyed,
    Blake3_256Internal,
    Blake3_512Internal,
    Blake3_256_160Internal,
    Ripemd160,
    Nop,
}

impl View for OP {
    type V = OP;

    open spec fn view(&self) -> OP {
        *self
    }
}

impl OP {
    /// The byte of the instruction.
    pub open spec fn code(self) -> u8 {
        match self {
            OP::Func => 0x00,
            OP::ChainId => 0x07,
            OP::ChainHeight => 0x08,
            OP::ChainTimestamp => 0x09,
            OP::IsCoinbase => 0x0a,
            OP::PrevBlockHash => 0x0b,
            OP::NSequence => 0x0c,
            OP::RandomHash160Var => 0x0d,
            OP::RandomHash256Var => 0x0e,
            OP::RandomHash512Var => 0x0f,
            OP::RandomUnsigned8 => 0x10,
            OP::RandomUnsigned16 => 0x11,
            OP::RandomUnsigned32 => 0x12,
            OP::RandomUnsigned64 => 0x13,
            OP::RandomUnsigned128 => 0x14,
            OP::RandomSigned8 => 0x15,
            OP::RandomSigned16 => 0x16,
            OP::RandomSigned32 => 0x17,
            OP::RandomSigned64 => 0x18,
            OP::RandomSigned128 => 0x19,
            OP::Hash160Var => 0x20,
            OP::Hash256Var => 0x21,
            OP::Hash512Var => 0x22,
            OP::Unsigned8Var => 0x23,
            OP::Unsigned16Var => 0x24,
            OP::Unsigned32Var => 0x25,
            OP::Unsigned64Var => 0x26,
            OP::Unsigned128Var => 0x27,
            OP::UnsignedBigVar => 0x28,
            OP::Signed8Var => 0x29,
            OP::Signed16Var => 0x2a,
            OP::Signed32Var => 0x2b,
            OP::Signed64Var => 0x2c,
            OP::Signed128Var => 0x2d,
            OP::SignedBigVar => 0x2e,
            OP::Hash160ArrayVar => 0x31,
            OP::Hash256ArrayVar => 0x32,
            OP::Hash512ArrayVar => 0x33,
            OP::Unsigned8ArrayVar => 0x34,
            OP::Unsigned16ArrayVar => 0x35,
            OP::Unsigned32ArrayVar => 0x36,
            OP::Unsigned64ArrayVar => 0x37,
            OP::Unsigned128ArrayVar => 0x38,
            OP::UnsignedBigArrayVar => 0x39,
            OP::Signed8ArrayVar => 0x3a,
            OP::Signed16ArrayVar => 0x3b,
            OP::Signed32ArrayVar => 0x3c,
            OP::Signed64ArrayVar => 0x3d,
            OP::Signed128ArrayVar => 0x3e,
            OP::SignedBigArrayVar => 0x3f,
            OP::ArrayLen => 0x4a,
            OP::GetType => 0x4b,
            OP::IsNaN => 0x4c,
            OP::IsInf => 0x4d,
            OP::IsMinusInf => 0x4e,
            OP::ClearStack => 0x4f,
            OP::Add => 0x50,
            OP::Sub => 0x51,
            OP::Mult => 0x52,
            OP::Div => 0x53,
            OP::BitSHLeft => 0x54,
            OP::BitSHRight => 0x55,
            OP::BitXOR => 0x56,
            OP::Loop => 0x57,
            OP::Break => 0x58,
            OP::BreakIf => 0x59,
            OP::BreakIfn => 0x5a,
            OP::BreakIfEq => 0x5b,
            OP::BreakIfNeq => 0x5c,
            OP::BreakIfLeq => 0x5d,
            OP::BreakIfGeq => 0x5e,
            OP::BreakIfLt => 0x5f,
            OP::BreakIfGt => 0x60,
            OP::Continue => 0x61,
            OP::ContinueIf => 0x62,
            OP::ContinueIfn => 0x63,
            OP::ContinueIfEq => 0x64,
            OP::ContinueIfNeq => 0x65,
            OP::ContinueIfLeq => 0x66,
            OP::ContinueIfGeq => 0x67,
            OP::ContinueIfLt => 0x68,
            OP::ContinueIfGt => 0x69,
            OP::Depth => 0x6a,
            OP::IfDup => 0x6b,
            OP::Drop => 0x6c,
            OP::Dup => 0x6d,
            OP::Nip => 0x6e,
            OP::Over => 0x6f,
            OP::Pick => 0x70,
            OP::Roll => 0x71,
            OP::Rot => 0x72,
            OP::Swap => 0x73,
            OP::Tuck => 0x74,
            OP::Drop2 => 0x75,
            OP::Dup2 => 0x76,
            OP::Dup3 => 0x77,
            OP::Over2 => 0x78,
            OP::Rot2 => 0x79,
            OP::Swap2 => 0x7a,
            OP::Size => 0x7b,
            OP::Substr => 0x7c,
            OP::Left => 0x7d,
            OP::Right => 0x7e,
            OP::BitInvert => 0x7f,
            OP::IsUTF8 => 0x80,
            OP::Add1 => 0x82,
            OP::Sub1 => 0x83,
            OP::Min => 0x84,
            OP::Max => 0x85,
            OP::Within => 0x86,
            OP::BoolAnd => 0x87,
            OP::BoolOr => 0x88,
            OP::Negate => 0x89,
            OP::Abs => 0x8a,
            OP::PushPrevScriptOuts => 0x8b,
            OP::PushPrevScriptOutsLen => 0x8c,
            OP::PushPrevScriptOut => 0x8d,
            OP::PushExecCount => 0x8e,
            OP::FlushToScriptOuts => 0x8f,
            OP::PopToScriptOuts => 0x90,
            OP::PickToScriptOuts => 0x91,
            OP::ToHex => 0x9a,
            OP::FromHex => 0x9b,
            OP::Call => 0xaf,
            OP::Concat => 0xb0,
            OP::Eq => 0xb1,
            OP::Neq => 0xb2,
            OP::If => 0xb3,
            OP::Ifn => 0xb4,
            OP::Else => 0xb5,
            OP::End => 0xb6,
            OP::Verify => 0xb7,
            OP::ReturnFunc => 0xb8,
            OP::Return => 0xb9,
            OP::EqVerify => 0xba,
            OP::Lt => 0xbb,
            OP::Gt => 0xbc,
            OP::Leq => 0xbd,
            OP::Geq => 0xbe,
            OP::IfLt => 0xbf,
            OP::IfGt => 0xc0,
            OP::IfLeq => 0xc1,
            OP::IfGeq => 0xc2,
            OP::IfEq => 0xc3,
            OP::IfNeq => 0xc4,
            OP::LtVerify => 0xc5,
            OP::GtVerify => 0xc6,
            OP::LeqVerify => 0xc7,
            OP::GeqVerify => 0xc8,
            OP::NeqVerify => 0xc9,
            OP::CastTo => 0xca,
            OP::PushOut => 0xcf,
            OP::PushOutVerify => 0xe0,
            OP::PushCoinbaseOut => 0xe1,
            OP::PushColouredCoinbaseOut => 0xe2,
            OP::PushOutIf => 0xe3,
            OP::PushOutIfEq => 0xe4,
            OP::PushOutIfNeq => 0xe5,
            OP::PushOutIfLt => 0xe6,
            OP::PushOutIfGt => 0xe7,
            OP::PushOutIfLeq => 0xe8,
            OP::PushOutIfGeq => 0xe9,
            OP::HasInput => 0xea,
            OP::HasOutput => 0xeb,
            OP::HasColouredInput => 0xec,
            OP::HasColouredOutput => 0xed,
            OP::Sha256 => 0xee,
            OP::Sha512 => 0xef,
            OP::Keccak256 => 0xf0,
            OP::Keccak512 => 0xf1,
            OP::Blake2b256 => 0xf2,
            OP::Blake2b512 => 0xf3,
            OP::Blake3_160 => 0xf4,
            OP::Blake3_256 => 0xf5,
            OP::Blake3_512 => 0xf6,
            OP::Blake3_256_160 => 0xf7,
            OP::Blake3_256Keyed => 0xf8,
            OP::Blake3_512Keyed => 0xf9,
            OP::Blake3_160Keyed => 0xfa,
            OP::Blake3_256Internal => 0xfb,
            OP::Blake3_512Internal => 0xfc,
            OP::Blake3_256_160Internal => 0xfd,
            OP::Ripemd160 => 0xfe,
            OP::Nop => 0xff,
        }
    }

    /// The instruction of a byte, where the byte is the code of one.
    pub open spec fn of_code(code: u8) -> Option<OP> {
        match code {
            0x00 => Some(OP::Func),
            0x07 => Some(OP::ChainId),
            0x08 => Some(OP::ChainHeight),
            0x09 => Some(OP::ChainTimestamp),
            0x0a => Some(OP::IsCoinbase),
            0x0b => Some(OP::PrevBlockHash),
            0x0c => Some(OP::NSequence),
            0x0d => Some(OP::RandomHash160Var),
            0x0e => Some(OP::RandomHash256Var),
            0x0f => Some(OP::RandomHash512Var),
            0x10 => Some(OP::RandomUnsigned8),
            0x11 => Some(OP::RandomUnsigned16),
            0x12 => Some(OP::RandomUnsigned32),
            0x13 => Some(OP::RandomUnsigned64),
            0x14 => Some(OP::RandomUnsigned128),
            0x15 => Some(OP::RandomSigned8),
            0x16 => Some(OP::RandomSigned16),
            0x17 => Some(OP::RandomSigned32),
            0x18 => Some(OP::RandomSigned64),
            0x19 => Some(OP::RandomSigned128),
            0x20 => Some(OP::Hash160Var),
            0x21 => Some(OP::Hash256Var),
            0x22 => Some(OP::Hash512Var),
            0x23 => Some(OP::Unsigned8Var),
            0x24 => Some(OP::Unsigned16Var),
            0x25 => Some(OP::Unsigned32Var),
            0x26 => Some(OP::Unsigned64Var),
            0x27 => Some(OP::Unsigned128Var),
            0x28 => Some(OP::UnsignedBigVar),
            0x29 => Some(OP::Signed8Var),
            0x2a => Some(OP::Signed16Var),
            0x2b => Some(OP::Signed32Var),
            0x2c => Some(OP::Signed64Var),
            0x2d => Some(OP::Signed128Var),
            0x2e => Some(OP::SignedBigVar),
            0x31 => Some(OP::Hash160ArrayVar),
            0x32 => Some(OP::Hash256ArrayVar),
            0x33 => Some(OP::Hash512ArrayVar),
            0x34 => Some(OP::Unsigned8ArrayVar),
            0x35 => Some(OP::Unsigned16ArrayVar),
            0x36 => Some(OP::Unsigned32ArrayVar),
            0x37 => Some(OP::Unsigned64ArrayVar),
            0x38 => Some(OP::Unsigned128ArrayVar),
            0x39 => Some(OP::UnsignedBigArrayVar),
            0x3a => Some(OP::Signed8ArrayVar),
            0x3b => Some(OP::Signed16ArrayVar),
            0x3c => Some(OP::Signed32ArrayVar),
            0x3d => Some(OP::Signed64ArrayVar),
            0x3e => Some(OP::Signed128ArrayVar),
            0x3f => Some(OP::SignedBigArrayVar),
            0x4a => Some(OP::ArrayLen),
            0x4b => Some(OP::GetType),
            0x4c => Some(OP::IsNaN),
            0x4d => Some(OP::IsInf),
            0x4e => Some(OP::IsMinusInf),
            0x4f => Some(OP::ClearStack),
            0x50 => Some(OP::Add),
            0x51 => Some(OP::Sub),
            0x52 => Some(OP::Mult),
            0x53 => Some(OP::Div),
            0x54 => Some(OP::BitSHLeft),
            0x55 => Some(OP::BitSHRight),
            0x56 => Some(OP::BitXOR),
            0x57 => Some(OP::Loop),
            0x58 => Some(OP::Break),
            0x59 => Some(OP::BreakIf),
            0x5a => Some(OP::BreakIfn),
            0x5b => Some(OP::BreakIfEq),
            0x5c => Some(OP::BreakIfNeq),
            0x5d => Some(OP::BreakIfLeq),
            0x5e => Some(OP::BreakIfGeq),
            0x5f => Some(OP::BreakIfLt),
            0x60 => Some(OP::BreakIfGt),
            0x61 => Some(OP::Continue),
            0x62 => Some(OP::ContinueIf),
            0x63 => Some(OP::ContinueIfn),
            0x64 => Some(OP::ContinueIfEq),
            0x65 => Some(OP::ContinueIfNeq),
            0x66 => Some(OP::ContinueIfLeq),
            0x67 => Some(OP::ContinueIfGeq),
            0x68 => Some(OP::ContinueIfLt),
            0x69 => Some(OP::ContinueIfGt),
            0x6a => Some(OP::Depth),
            0x6b => Some(OP::IfDup),
            0x6c => Some(OP::Drop),
            0x6d => Some(OP::Dup),
            0x6e => Some(OP::Nip),
            0x6f => Some(OP::Over),
            0x70 => Some(OP::Pick),
            0x71 => Some(OP::Roll),
            0x72 => Some(OP::Rot),
            0x73 => Some(OP::Swap),
            0x74 => Some(OP::Tuck),
            0x75 => Some(OP::Drop2),
            0x76 => Some(OP::Dup2),
            0x77 => Some(OP::Dup3),
            0x78 => Some(OP::Over2),
            0x79 => Some(OP::Rot2),
            0x7a => Some(OP::Swap2),
            0x7b => Some(OP::Size),
            0x7c => Some(OP::Substr),
            0x7d => Some(OP::Left),
            0x7e => Some(OP::Right),
            0x7f => Some(OP::BitInvert),
            0x80 => Some(OP::IsUTF8),
            0x82 => Some(OP::Add1),
            0x83 => Some(OP::Sub1),
            0x84 => Some(OP::Min),
            0x85 => Some(OP::Max),
            0x86 => Some(OP::Within),
            0x87 => Some(OP::BoolAnd),
            0x88 => Some(OP::BoolOr),
            0x89 => Some(OP::Negate),
            0x8a => Some(OP::Abs),
            0x8b => Some(OP::PushPrevScriptOuts),
            0x8c => Some(OP::PushPrevScriptOutsLen),
            0x8d => Some(OP::PushPrevScriptOut),
            0x8e => Some(OP::PushExecCount),
            0x8f => Some(OP::FlushToScriptOuts),
            0x90 => Some(OP::PopToScriptOuts),
            0x91 => Some(OP::PickToScriptOuts),
            0x9a => Some(OP::ToHex),
            0x9b => Some(OP::FromHex),
            0xaf => Some(OP::Call),
            0xb0 => Some(OP::Concat),
            0xb1 => Some(OP::Eq),
            0xb2 => Some(OP::Neq),
            0xb3 => Some(OP::If),
            0xb4 => Some(OP::Ifn),
            0xb5 => Some(OP::Else),
            0xb6 => Some(OP::End),
            0xb7 => Some(OP::Verify),
            0xb8 => Some(OP::ReturnFunc),
            0xb9 => Some(OP::Return),
            0xba => Some(OP::EqVerify),
            0xbb => Some(OP::Lt),
            0xbc => Some(OP::Gt),
            0xbd => Some(OP::Leq),
            0xbe => Some(OP::Geq),
            0xbf => Some(OP::IfLt),
            0xc0 => Some(OP::IfGt),
            0xc1 => Some(OP::IfLeq),
            0xc2 => Some(OP::IfGeq),
            0xc3 => Some(OP::IfEq),
            0xc4 => Some(OP::IfNeq),
            0xc5 => Some(OP::LtVerify),
            0xc6 => Some(OP::GtVerify),
            0xc7 => Some(OP::LeqVerify),
            0xc8 => Some(OP::GeqVerify),
            0xc9 => Some(OP::NeqVerify),
            0xca => Some(OP::CastTo),
            0xcf => Some(OP::PushOut),
            0xe0 => Some(OP::PushOutVerify),
            0xe1 => Some(OP::PushCoinbaseOut),
            0xe2 => Some(OP::PushColouredCoinbaseOut),
            0xe3 => Some(OP::PushOutIf),
            0xe4 => Some(OP::PushOutIfEq),
            0xe5 => Some(OP::PushOutIfNeq),
            0xe6 => Some(OP::PushOutIfLt),
            0xe7 => Some(OP::PushOutIfGt),
            0xe8 => Some(OP::PushOutIfLeq),
            0xe9 => Some(OP::PushOutIfGeq),
            0xea => Some(OP::HasInput),
            0xeb => Some(OP::HasOutput),
            0xec => Some(OP::HasColouredInput),
            0xed => Some(OP::HasColouredOutput),
            0xee => Some(OP::Sha256),
            0xef => Some(OP::Sha512),
            0xf0 => Some(OP::Keccak256),
            0xf1 => Some(OP::Keccak512),
            0xf2 => Some(OP::Blake2b256),
            0xf3 => Some(OP::Blake2b512),
            0xf4 => Some(OP::Blake3_160),
            0xf5 => Some(OP::Blake3_256),
            0xf6 => Some(OP::Blake3_512),
            0xf7 => Some(OP::Blake3_256_160),
            0xf8 => Some(OP::Blake3_256Keyed),
            0xf9 => Some(OP::Blake3_512Keyed),
            0xfa => Some(OP::Blake3_160Keyed),
            0xfb => Some(OP::Blake3_256Internal),
            0xfc => Some(OP::Blake3_512Internal),
            0xfd => Some(OP::Blake3_256_160Internal),
            0xfe => Some(OP::Ripemd160),
            0xff => Some(OP::Nop),
            _ => None,
        }
    }

    /// The byte of the instruction.
    pub fn to_u8(&self) -> (code: u8)
        ensures
            code == self.code(),
    {
        match self {
            OP::Func => 0x00,
            OP::ChainId => 0x07,
            OP::ChainHeight => 0x08,
            OP::ChainTimestamp => 0x09,
            OP::IsCoinbase => 0x0a,
            OP::PrevBlockHash => 0x0b,
            OP::NSequence => 0x0c,
            OP::RandomHash160Var => 0x0d,
            OP::RandomHash256Var => 0x0e,
            OP::RandomHash512Var => 0x0f,
            OP::RandomUnsigned8 => 0x10,
            OP::RandomUnsigned16 => 0x11,
            OP::RandomUnsigned32 => 0x12,
            OP::RandomUnsigned64 => 0x13,
            OP::RandomUnsigned128 => 0x14,
            OP::RandomSigned8 => 0x15,
            OP::RandomSigned16 => 0x16,
            OP::RandomSigned32 => 0x17,
            OP::RandomSigned64 => 0x18,
            OP::RandomSigned128 => 0x19,
            OP::Hash160Var => 0x20,
            OP::Hash256Var => 0x21,
            OP::Hash512Var => 0x22,
            OP::Unsigned8Var => 0x23,
            OP::Unsigned16Var => 0x24,
            OP::Unsigned32Var => 0x25,
            OP::Unsigned64Var => 0x26,
            OP::Unsigned128Var => 0x27,
            OP::UnsignedBigVar => 0x28,
            OP::Signed8Var => 0x29,
            OP::Signed16Var => 0x2a,
            OP::Signed32Var => 0x2b,
            OP::Signed64Var => 0x2c,
            OP::Signed128Var => 0x2d,
            OP::SignedBigVar => 0x2e,
            OP::Hash160ArrayVar => 0x31,
            OP::Hash256ArrayVar => 0x32,
            OP::Hash512ArrayVar => 0x33,
            OP::Unsigned8ArrayVar => 0x34,
            OP::Unsigned16ArrayVar => 0x35,
            OP::Unsigned32ArrayVar => 0x36,
            OP::Unsigned64ArrayVar => 0x37,
            OP::Unsigned128ArrayVar => 0x38,
            OP::UnsignedBigArrayVar => 0x39,
            OP::Signed8ArrayVar => 0x3a,
            OP::Signed16ArrayVar => 0x3b,
            OP::Signed32ArrayVar => 0x3c,
            OP::Signed64ArrayVar => 0x3d,
            OP::Signed128ArrayVar => 0x3e,
            OP::SignedBigArrayVar => 0x3f,
            OP::ArrayLen => 0x4a,
            OP::GetType => 0x4b,
            OP::IsNaN => 0x4c,
            OP::IsInf => 0x4d,
            OP::IsMinusInf => 0x4e,
            OP::ClearStack => 0x4f,
            OP::Add => 0x50,
            OP::Sub => 0x51,
            OP::Mult => 0x52,
            OP::Div => 0x53,
            OP::BitSHLeft => 0x54,
            OP::BitSHRight => 0x55,
            OP::BitXOR => 0x56,
            OP::Loop => 0x57,
            OP::Break => 0x58,
            OP::BreakIf => 0x59,
            OP::BreakIfn => 0x5a,
            OP::BreakIfEq => 0x5b,
            OP::BreakIfNeq => 0x5c,
            OP::BreakIfLeq => 0x5d,
            OP::BreakIfGeq => 0x5e,
            OP::BreakIfLt => 0x5f,
            OP::BreakIfGt => 0x60,
            OP::Continue => 0x61,
            OP::ContinueIf => 0x62,
            OP::ContinueIfn => 0x63,
            OP::ContinueIfEq => 0x64,
            OP::ContinueIfNeq => 0x65,
            OP::ContinueIfLeq => 0x66,
            OP::ContinueIfGeq => 0x67,
            OP::ContinueIfLt => 0x68,
            OP::ContinueIfGt => 0x69,
            OP::Depth => 0x6a,
            OP::IfDup => 0x6b,
            OP::Drop => 0x6c,
            OP::Dup => 0x6d,
            OP::Nip => 0x6e,
            OP::Over => 0x6f,
            OP::Pick => 0x70,
            OP::Roll => 0x71,
            OP::Rot => 0x72,
            OP::Swap => 0x73,
            OP::Tuck => 0x74,
            OP::Drop2 => 0x75,
            OP::Dup2 => 0x76,
            OP::Dup3 => 0x77,
            OP::Over2 => 0x78,
            OP::Rot2 => 0x79,
            OP::Swap2 => 0x7a,
            OP::Size => 0x7b,
            OP::Substr => 0x7c,
            OP::Left => 0x7d,
            OP::Right => 0x7e,
            OP::BitInvert => 0x7f,
            OP::IsUTF8 => 0x80,
            OP::Add1 => 0x82,
            OP::Sub1 => 0x83,
            OP::Min => 0x84,
            OP::Max => 0x85,
            OP::Within => 0x86,
            OP::BoolAnd => 0x87,
            OP::BoolOr => 0x88,
            OP::Negate => 0x89,
            OP::Abs => 0x8a,
            OP::PushPrevScriptOuts => 0x8b,
            OP::PushPrevScriptOutsLen => 0x8c,
            OP::PushPrevScriptOut => 0x8d,
            OP::PushExecCount => 0x8e,
            OP::FlushToScriptOuts => 0x8f,
            OP::PopToScriptOuts => 0x90,
            OP::PickToScriptOuts => 0x91,
            OP::ToHex => 0x9a,
            OP::FromHex => 0x9b,
            OP::Call => 0xaf,
            OP::Concat => 0xb0,
            OP::Eq => 0xb1,
            OP::Neq => 0xb2,
            OP::If => 0xb3,
            OP::Ifn => 0xb4,
            OP::Else => 0xb5,
            OP::End => 0xb6,
            OP::Verify => 0xb7,
            OP::ReturnFunc => 0xb8,
            OP::Return => 0xb9,
            OP::EqVerify => 0xba,
            OP::Lt => 0xbb,
            OP::Gt => 0xbc,
            OP::Leq => 0xbd,
            OP::Geq => 0xbe,
            OP::IfLt => 0xbf,
            OP::IfGt => 0xc0,
            OP::IfLeq => 0xc1,
            OP::IfGeq => 0xc2,
            OP::IfEq => 0xc3,
            OP::IfNeq => 0xc4,
            OP::LtVerify => 0xc5,
            OP::GtVerify => 0xc6,
            OP::LeqVerify => 0xc7,
            OP::GeqVerify => 0xc8,
            OP::NeqVerify => 0xc9,
            OP::CastTo => 0xca,
            OP::PushOut => 0xcf,
            OP::PushOutVerify => 0xe0,
            OP::PushCoinbaseOut => 0xe1,
            OP::PushColouredCoinbaseOut => 0xe2,
            OP::PushOutIf => 0xe3,
            OP::PushOutIfEq => 0xe4,
            OP::PushOutIfNeq => 0xe5,
            OP::PushOutIfLt => 0xe6,
            OP::PushOutIfGt => 0xe7,
            OP::PushOutIfLeq => 0xe8,
            OP::PushOutIfGeq => 0xe9,
            OP::HasInput => 0xea,
            OP::HasOutput => 0xeb,
            OP::HasColouredInput => 0xec,
            OP::HasColouredOutput => 0xed,
            OP::Sha256 => 0xee,
            OP::Sha512 => 0xef,
            OP::Keccak256 => 0xf0,
            OP::Keccak512 => 0xf1,
            OP::Blake2b256 => 0xf2,
            OP::Blake2b512 => 0xf3,
            OP::Blake3_160 => 0xf4,
            OP::Blake3_256 => 0xf5,
            OP::Blake3_512 => 0xf6,
            OP::Blake3_256_160 => 0xf7,
            OP::Blake3_256Keyed => 0xf8,
            OP::Blake3_512Keyed => 0xf9,
            OP::Blake3_160Keyed => 0xfa,
            OP::Blake3_256Internal => 0xfb,
            OP::Blake3_512Internal => 0xfc,
            OP::Blake3_256_160Internal => 0xfd,
            OP::Ripemd160 => 0xfe,
            OP::Nop => 0xff,
        }
    }

    /// The instruction of a byte, or `None` where the byte is the code of none.
    pub fn from_u8(code: u8) -> (op: Option<OP>)
        ensures
            op == OP::of_code(code),
    {
        match code {
            0x00 => Some(OP::Func),
            0x07 => Some(OP::ChainId),
            0x08 => Some(OP::ChainHeight),
            0x09 => Some(OP::ChainTimestamp),
            0x0a => Some(OP::IsCoinbase),
            0x0b => Some(OP::PrevBlockHash),
            0x0c => Some(OP::NSequence),
            0x0d => Some(OP::RandomHash160Var),
            0x0e => Some(OP::RandomHash256Var),
            0x0f => Some(OP::RandomHash512Var),
            0x10 => Some(OP::RandomUnsigned8),
            0x11 => Some(OP::RandomUnsigned16),
            0x12 => Some(OP::RandomUnsigned32),
            0x13 => Some(OP::RandomUnsigned64),
            0x14 => Some(OP::RandomUnsigned128),
            0x15 => Some(OP::RandomSigned8),
            0x16 => Some(OP::RandomSigned16),
            0x17 => Some(OP::RandomSigned32),
            0x18 => Some(OP::RandomSigned64),
            0x19 => Some(OP::RandomSigned128),
            0x20 => Some(OP::Hash160Var),
            0x21 => Some(OP::Hash256Var),
            0x22 => Some(OP::Hash512Var),
            0x23 => Some(OP::Unsigned8Var),
            0x24 => Some(OP::Unsigned16Var),
            0x25 => Some(OP::Unsigned32Var),
            0x26 => Some(OP::Unsigned64Var),
            0x27 => Some(OP::Unsigned128Var),
            0x28 => Some(OP::UnsignedBigVar),
            0x29 => Some(OP::Signed8Var),
            0x2a => Some(OP::Signed16Var),
            0x2b => Some(OP::Signed32Var),
            0x2c => Some(OP::Signed64Var),
            0x2d => Some(OP::Signed128Var),
            0x2e => Some(OP::SignedBigVar),
            0x31 => Some(OP::Hash160ArrayVar),
            0x32 => Some(OP::Hash256ArrayVar),
            0x33 => Some(OP::Hash512ArrayVar),
            0x34 => Some(OP::Unsigned8ArrayVar),
            0x35 => Some(OP::Unsigned16ArrayVar),
            0x36 => Some(OP::Unsigned32ArrayVar),
            0x37 => Some(OP::Unsigned64ArrayVar),
            0x38 => Some(OP::Unsigned128ArrayVar),
            0x39 => Some(OP::UnsignedBigArrayVar),
            0x3a => Some(OP::Signed8ArrayVar),
            0x3b => Some(OP::Signed16ArrayVar),
            0x3c => Some(OP::Signed32ArrayVar),
            0x3d => Some(OP::Signed64ArrayVar),
            0x3e => Some(OP::Signed128ArrayVar),
            0x3f => Some(OP::SignedBigArrayVar),
            0x4a => Some(OP::ArrayLen),
            0x4b => Some(OP::GetType),
            0x4c => Some(OP::IsNaN),
            0x4d => Some(OP::IsInf),
            0x4e => Some(OP::IsMinusInf),
            0x4f => Some(OP::ClearStack),
            0x50 => Some(OP::Add),
            0x51 => Some(OP::Sub),
            0x52 => Some(OP::Mult),
            0x53 => Some(OP::Div),
            0x54 => Some(OP::BitSHLeft),
            0x55 => Some(OP::BitSHRight),
            0x56 => Some(OP::BitXOR),
            0x57 => Some(OP::Loop),
            0x58 => Some(OP::Break),
            0x59 => Some(OP::BreakIf),
            0x5a => Some(OP::BreakIfn),
            0x5b => Some(OP::BreakIfEq),
            0x5c => Some(OP::BreakIfNeq),
            0x5d => Some(OP::BreakIfLeq),
            0x5e => Some(OP::BreakIfGeq),
            0x5f => Some(OP::BreakIfLt),
            0x60 => Some(OP::BreakIfGt),
            0x61 => Some(OP::Continue),
            0x62 => Some(OP::ContinueIf),
            0x63 => Some(OP::ContinueIfn),
            0x64 => Some(OP::ContinueIfEq),
            0x65 => Some(OP::ContinueIfNeq),
            0x66 => Some(OP::ContinueIfLeq),
            0x67 => Some(OP::ContinueIfGeq),
            0x68 => Some(OP::ContinueIfLt),
            0x69 => Some(OP::ContinueIfGt),
            0x6a => Some(OP::Depth),
            0x6b => Some(OP::IfDup),
            0x6c => Some(OP::Drop),
            0x6d => Some(OP::Dup),
            0x6e => Some(OP::Nip),
            0x6f => Some(OP::Over),
            0x70 => Some(OP::Pick),
            0x71 => Some(OP::Roll),
            0x72 => Some(OP::Rot),
            0x73 => Some(OP::Swap),
            0x74 => Some(OP::Tuck),
            0x75 => Some(OP::Drop2),
            0x76 => Some(OP::Dup2),
            0x77 => Some(OP::Dup3),
            0x78 => Some(OP::Over2),
            0x79 => Some(OP::Rot2),
            0x7a => Some(OP::Swap2),
            0x7b => Some(OP::Size),
            0x7c => Some(OP::Substr),
            0x7d => Some(OP::Left),
            0x7e => Some(OP::Right),
            0x7f => Some(OP::BitInvert),
            0x80 => Some(OP::IsUTF8),
            0x82 => Some(OP::Add1),
            0x83 => Some(OP::Sub1),
            0x84 => Some(OP::Min),
            0x85 => Some(OP::Max),
            0x86 => Some(OP::Within),
            0x87 => Some(OP::BoolAnd),
            0x88 => Some(OP::BoolOr),
            0x89 => Some(OP::Negate),
            0x8a => Some(OP::Abs),
            0x8b => Some(OP::PushPrevScriptOuts),
            0x8c => Some(OP::PushPrevScriptOutsLen),
            0x8d => Some(OP::PushPrevScriptOut),
            0x8e => Some(OP::PushExecCount),
            0x8f => Some(OP::FlushToScriptOuts),
            0x90 => Some(OP::PopToScriptOuts),
            0x91 => Some(OP::PickToScriptOuts),
            0x9a => Some(OP::ToHex),
            0x9b => Some(OP::FromHex),
            0xaf => Some(OP::Call),
            0xb0 => Some(OP::Concat),
            0xb1 => Some(OP::Eq),
            0xb2 => Some(OP::Neq),
            0xb3 => Some(OP::If),
            0xb4 => Some(OP::Ifn),
            0xb5 => Some(OP::Else),
            0xb6 => Some(OP::End),
            0xb7 => Some(OP::Verify),
            0xb8 => Some(OP::ReturnFunc),
            0xb9 => Some(OP::Return),
            0xba => Some(OP::EqVerify),
            0xbb => Some(OP::Lt),
            0xbc => Some(OP::Gt),
            0xbd => Some(OP::Leq),
            0xbe => Some(OP::Geq),
            0xbf => Some(OP::IfLt),
            0xc0 => Some(OP::IfGt),
            0xc1 => Some(OP::IfLeq),
            0xc2 => Some(OP::IfGeq),
            0xc3 => Some(OP::IfEq),
            0xc4 => Some(OP::IfNeq),
            0xc5 => Some(OP::LtVerify),
            0xc6 => Some(OP::GtVerify),
            0xc7 => Some(OP::LeqVerify),
            0xc8 => Some(OP::GeqVerify),
            0xc9 => Some(OP::NeqVerify),
            0xca => Some(OP::CastTo),
            0xcf => Some(OP::PushOut),
            0xe0 => Some(OP::PushOutVerify),
            0xe1 => Some(OP::PushCoinbaseOut),
            0xe2 => Some(OP::PushColouredCoinbaseOut),
            0xe3 => Some(OP::PushOutIf),
            0xe4 => Some(OP::PushOutIfEq),
            0xe5 => Some(OP::PushOutIfNeq),
            0xe6 => Some(OP::PushOutIfLt),
            0xe7 => Some(OP::PushOutIfGt),
            0xe8 => Some(OP::PushOutIfLeq),
            0xe9 => Some(OP::PushOutIfGeq),
            0xea => Some(OP::HasInput),
            0xeb => Some(OP::HasOutput),
            0xec => Some(OP::HasColouredInput),
            0xed => Some(OP::HasColouredOutput),
            0xee => Some(OP::Sha256),
            0xef => Some(OP::Sha512),
            0xf0 => Some(OP::Keccak256),
            0xf1 => Some(OP::Keccak512),
            0xf2 => Some(OP::Blake2b256),
            0xf3 => Some(OP::Blake2b512),
            0xf4 => Some(OP::Blake3_160),
            0xf5 => Some(OP::Blake3_256),
            0xf6 => Some(OP::Blake3_512),
            0xf7 => Some(OP::Blake3_256_160),
            0xf8 => Some(OP::Blake3_256Keyed),
            0xf9 => Some(OP::Blake3_512Keyed),
            0xfa => Some(OP::Blake3_160Keyed),
            0xfb => Some(OP::Blake3_256Internal),
            0xfc => Some(OP::Blake3_512Internal),
            0xfd => Some(OP::Blake3_256_160Internal),
            0xfe => Some(OP::Ripemd160),
            0xff => Some(OP::Nop),
            _ => None,
        }
    }
}

/// Every instruction is the instruction of its own byte, and a byte is the code of no
/// instruction but the one it selects: no two instructions share a byte.
pub proof fn lemma_codes_are_unique(op: OP, code: u8)
    ensures
        OP::of_code(op.code()) == Some(op),
        OP::of_code(code) == Some(op) <==> op.code() == code,
{
}

impl Encode for OP {
    open spec fn encoding(&self) -> Seq<u8> {
        seq![self.code()]
    }

    fn encode(&self) -> (res: Result<Vec<u8>, WriteError>) {
        let mut bytes: Vec<u8> = Vec::new();
        bytes.push(self.to_u8());
        Ok(bytes)
    }
}

impl Decode for OP {
    open spec fn decoding(bytes: Seq<u8>) -> Result<(OP, nat), DecodeError> {
        if bytes.len() == 0 {
            Err(DecodeError::UnexpectedEnd)
        } else {
            match OP::of_code(bytes[0]) {
                Some(op) => Ok((op, 1)),
                None => Err(DecodeError::InvalidOpcode),
            }
        }
    }

    fn decode(bytes: &[u8]) -> (res: Result<(Self, usize), DecodeError>) {
        if bytes.len() == 0 {
            return Err(DecodeError::UnexpectedEnd);
        }
        match OP::from_u8(bytes[0]) {
            Some(op) => Ok((op, 1)),
            None => Err(DecodeError::InvalidOpcode),
        }
    }
}

} // verus!
