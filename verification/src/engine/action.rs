//! What each instruction of the table does, by class.

use vstd::prelude::*;
use crate::engine::bitwise::BitOp;
use crate::engine::bytes::DigestLength;
use crate::engine::bytes::HashFunction;
use crate::model::Arith;
use crate::model::Kind;
use crate::model::Relation;
use crate::opcodes::OP;

verus! {

/// When an instruction that may or may not take effect does: always, if the term it takes
/// off the stack is one, if that term is not one, or if a relation holds of the two terms
/// it takes off the stack.
#[derive(Clone, Copy, Debug, PartialEq, Eq, Structural)]
pub enum Condition {
    Always,
    IfTrue,
    IfFalse,
    IfRelated(Relation),
}

/// Something of the context, or of the run so far, that an instruction puts on the stack.
#[derive(Clone, Copy, Debug, PartialEq, Eq, Structural)]
pub enum ContextField {
    ChainId,
    ChainHeight,
    ChainTimestamp,
    IsCoinbase,
    PrevBlockHash,
    NSequence,
    PrevOutputsLen,
    ExecCount,
    HasInput,
    HasOutput,
    HasColouredInput,
    HasColouredOutput,
}

/// A rearrangement of the stack.
#[derive(Clone, Copy, Debug, PartialEq, Eq, Structural)]
pub enum StackOp {
    Depth,
    IfDup,
    Drop,
    Dup,
    Nip,
    Over,
    Pick,
    Roll,
    Rot,
    Swap,
    Tuck,
    Drop2,
    Dup2,
    Dup3,
    Over2,
    Rot2,
    Swap2,
    ClearStack,
}

/// An instruction that takes one term off the stack and puts one on.
#[derive(Clone, Copy, Debug, PartialEq, Eq, Structural)]
pub enum UnaryOp {
    Add1,
    Sub1,
    Negate,
    Abs,
    ArrayLen,
    GetType,
    Size,
    IsNaN,
    IsInf,
    IsMinusInf,
}

/// An instruction that moves terms between the stack, the terms that are staged for the
/// next output, and the outputs that are spent.
#[derive(Clone, Copy, Debug, PartialEq, Eq, Structural)]
pub enum StageOp {
    PopToScriptOuts,
    PickToScriptOuts,
    FlushToScriptOuts,
    PushPrevScriptOuts,
    PushPrevScriptOut,
}

/// An instruction on the text that bytes hold.
#[derive(Clone, Copy, Debug, PartialEq, Eq, Structural)]
pub enum TextOp {
    ToHex,
    FromHex,
    IsUTF8,
}

/// An instruction that takes a part of an array.
#[derive(Clone, Copy, Debug, PartialEq, Eq, Structural)]
pub enum PartOp {
    Substr,
    Left,
    Right,
}

/// The markers of an output that an instruction makes.
#[derive(Clone, Copy, Debug, PartialEq, Eq, Structural)]
pub enum OutputKind {
    Plain,
    Coinbase,
    ColouredCoinbase,
}

/// What an instruction does.
#[derive(Clone, Copy, Debug, PartialEq, Eq, Structural)]
pub enum Action {
    /// Nothing.
    Nop,
    /// Puts the term that follows the instruction in the script on the stack: a scalar or
    /// an array of the given kind.
    Literal(bool, Kind),
    /// Puts a pseudo-random scalar of the given kind on the stack.
    Random(Kind),
    Context(ContextField),
    Stack(StackOp),
    Unary(UnaryOp),
    /// Takes two integer scalars off the stack and puts the result of the calculation on.
    Binary(Arith),
    BoolAnd,
    BoolOr,
    /// Takes an upper bound, a lower bound and a number off the stack and puts the number
    /// on again, moved into the bounds.
    Within,
    /// Takes two terms off the stack and puts on whether the relation holds of them.
    Compare(Relation),
    /// Fails the script unless the condition holds.
    Verify(Condition),
    /// Opens a block that is entered if the condition holds, and else skipped up to its
    /// `Else` or `End`.
    If(Condition),
    Else,
    /// Closes a block; at the end of a loop, the loop starts again.
    End,
    /// Opens a block that is repeated until a break leaves it.
    Loop,
    /// Leaves the innermost loop if the condition holds.
    Break(Condition),
    /// Starts the innermost loop again if the condition holds.
    Continue(Condition),
    /// Ends the script with success.
    Return,
    Stage(StageOp),
    /// Makes an output of the staged terms if the condition holds.
    PushOut(OutputKind, Condition),
    /// Fails the script unless the term it takes off the stack is one, and else makes an
    /// output of the staged terms.
    PushOutVerify,
    /// Takes a term that bears bytes off the stack and puts its hash on.
    Hash(HashFunction),
    /// Takes a key and a term that bears bytes off the stack and puts the keyed hash on.
    KeyedHash(DigestLength),
    Bits(BitOp),
    Text(TextOp),
    /// Takes two arrays of one kind off the stack and puts them on as one.
    Concat,
    Part(PartOp),
    /// Takes the tag byte of an integer kind and an integer scalar off the stack and puts
    /// the number on as a scalar of that kind.
    Cast,
    /// An instruction of the table that this engine does not run: a script that comes to
    /// it fails. These are the function instructions `Func`, `Call` and `ReturnFunc`, and the
    /// hash instructions `Blake3_256_160`, `Blake3_256Internal`, `Blake3_512Internal` and
    /// `Blake3_256_160Internal`.
    Unsupported,
}

/// What the instruction `op` does.
pub open spec fn action_of(op: OP) -> Action {
    match op {
        OP::ChainId => Action::Context(ContextField::ChainId),
        OP::ChainHeight => Action::Context(ContextField::ChainHeight),
        OP::ChainTimestamp => Action::Context(ContextField::ChainTimestamp),
        OP::IsCoinbase => Action::Context(ContextField::IsCoinbase),
        OP::PrevBlockHash => Action::Context(ContextField::PrevBlockHash),
        OP::NSequence => Action::Context(ContextField::NSequence),
        OP::RandomHash160Var => Action::Random(Kind::Hash160),
        OP::RandomHash256Var => Action::Random(Kind::Hash256),
        OP::RandomHash512Var => Action::Random(Kind::Hash512),
        OP::RandomUnsigned8 => Action::Random(Kind::Unsigned8),
        OP::RandomUnsigned16 => Action::Random(Kind::Unsigned16),
        OP::RandomUnsigned32 => Action::Random(Kind::Unsigned32),
        OP::RandomUnsigned64 => Action::Random(Kind::Unsigned64),
        OP::RandomUnsigned128 => Action::Random(Kind::Unsigned128),
        OP::RandomSigned8 => Action::Random(Kind::Signed8),
        OP::RandomSigned16 => Action::Random(Kind::Signed16),
        OP::RandomSigned32 => Action::Random(Kind::Signed32),
        OP::RandomSigned64 => Action::Random(Kind::Signed64),
        OP::RandomSigned128 => Action::Random(Kind::Signed128),
        OP::Hash160Var => Action::Literal(false, Kind::Hash160),
        OP::Hash256Var => Action::Literal(false, Kind::Hash256),
        OP::Hash512Var => Action::Literal(false, Kind::Hash512),
        OP::Unsigned8Var => Action::Literal(false, Kind::Unsigned8),
        OP::Unsigned16Var => Action::Literal(false, Kind::Unsigned16),
        OP::Unsigned32Var => Action::Literal(false, Kind::Unsigned32),
        OP::Unsigned64Var => Action::Literal(false, Kind::Unsigned64),
        OP::Unsigned128Var => Action::Literal(false, Kind::Unsigned128),
        OP::UnsignedBigVar => Action::Literal(false, Kind::UnsignedBig),
        OP::Signed8Var => Action::Literal(false, Kind::Signed8),
        OP::Signed16Var => Action::Literal(false, Kind::Signed16),
        OP::Signed32Var => Action::Literal(false, Kind::Signed32),
        OP::Signed64Var => Action::Literal(false, Kind::Signed64),
        OP::Signed128Var => Action::Literal(false, Kind::Signed128),
        OP::SignedBigVar => Action::Literal(false, Kind::SignedBig),
        OP::Hash160ArrayVar => Action::Literal(true, Kind::Hash160),
        OP::Hash256ArrayVar => Action::Literal(true, Kind::Hash256),
        OP::Hash512ArrayVar => Action::Literal(true, Kind::Hash512),
        OP::Unsigned8ArrayVar => Action::Literal(true, Kind::Unsigned8),
        OP::Unsigned16ArrayVar => Action::Literal(true, Kind::Unsigned16),
        OP::Unsigned32ArrayVar => Action::Literal(true, Kind::Unsigned32),
        OP::Unsigned64ArrayVar => Action::Literal(true, Kind::Unsigned64),
        OP::Unsigned128ArrayVar => Action::Literal(true, Kind::Unsigned128),
        OP::UnsignedBigArrayVar => Action::Literal(true, Kind::UnsignedBig),
        OP::Signed8ArrayVar => Action::Literal(true, Kind::Signed8),
        OP::Signed16ArrayVar => Action::Literal(true, Kind::Signed16),
        OP::Signed32ArrayVar => Action::Literal(true, Kind::Signed32),
        OP::Signed64ArrayVar => Action::Literal(true, Kind::Signed64),
        OP::Signed128ArrayVar => Action::Literal(true, Kind::Signed128),
        OP::SignedBigArrayVar => Action::Literal(true, Kind::SignedBig),
        OP::ArrayLen => Action::Unary(UnaryOp::ArrayLen),
        OP::GetType => Action::Unary(UnaryOp::GetType),
        OP::IsNaN => Action::Unary(UnaryOp::IsNaN),
        OP::IsInf => Action::Unary(UnaryOp::IsInf),
        OP::IsMinusInf => Action::Unary(UnaryOp::IsMinusInf),
        OP::ClearStack => Action::Stack(StackOp::ClearStack),
        OP::Add => Action::Binary(Arith::Add),
        OP::Sub => Action::Binary(Arith::Sub),
        OP::Mult => Action::Binary(Arith::Mul),
        OP::Div => Action::Binary(Arith::Div),
        OP::BitSHLeft => Action::Bits(BitOp::ShiftLeft),
        OP::BitSHRight => Action::Bits(BitOp::ShiftRight),
        OP::BitXOR => Action::Bits(BitOp::Xor),
        OP::Loop => Action::Loop,
        OP::Break => Action::Break(Condition::Always),
        OP::BreakIf => Action::Break(Condition::IfTrue),
        OP::BreakIfn => Action::Break(Condition::IfFalse),
        OP::BreakIfEq => Action::Break(Condition::IfRelated(Relation::Eq)),
        OP::BreakIfNeq => Action::Break(Condition::IfRelated(Relation::Neq)),
        OP::BreakIfLeq => Action::Break(Condition::IfRelated(Relation::Leq)),
        OP::BreakIfGeq => Action::Break(Condition::IfRelated(Relation::Geq)),
        OP::BreakIfLt => Action::Break(Condition::IfRelated(Relation::Lt)),
        OP::BreakIfGt => Action::Break(Condition::IfRelated(Relation::Gt)),
        OP::Continue => Action::Continue(Condition::Always),
        OP::ContinueIf => Action::Continue(Condition::IfTrue),
        OP::ContinueIfn => Action::Continue(Condition::IfFalse),
        OP::ContinueIfEq => Action::Continue(Condition::IfRelated(Relation::Eq)),
        OP::ContinueIfNeq => Action::Continue(Condition::IfRelated(Relation::Neq)),
        OP::ContinueIfLeq => Action::Continue(Condition::IfRelated(Relation::Leq)),
        OP::ContinueIfGeq => Action::Continue(Condition::IfRelated(Relation::Geq)),
        OP::ContinueIfLt => Action::Continue(Condition::IfRelated(Relation::Lt)),
        OP::ContinueIfGt => Action::Continue(Condition::IfRelated(Relation::Gt)),
        OP::Depth => Action::Stack(StackOp::Depth),
        OP::IfDup => Action::Stack(StackOp::IfDup),
        OP::Drop => Action::Stack(StackOp::Drop),
        OP::Dup => Action::Stack(StackOp::Dup),
        OP::Nip => Action::Stack(StackOp::Nip),
        OP::Over => Action::Stack(StackOp::Over),
        OP::Pick => Action::Stack(StackOp::Pick),
        OP::Roll => Action::Stack(StackOp::Roll),
        OP::Rot => Action::Stack(StackOp::Rot),
        OP::Swap => Action::Stack(StackOp::Swap),
        OP::Tuck => Action::Stack(StackOp::Tuck),
        OP::Drop2 => Action::Stack(StackOp::Drop2),
        OP::Dup2 => Action::Stack(StackOp::Dup2),
        OP::Dup3 => Action::Stack(StackOp::Dup3),
        OP::Over2 => Action::Stack(StackOp::Over2),
        OP::Rot2 => Action::Stack(StackOp::Rot2),
        OP::Swap2 => Action::Stack(StackOp::Swap2),
        OP::Size => Action::Unary(UnaryOp::Size),
        OP::Substr => Action::Part(PartOp::Substr),
        OP::Left => Action::Part(PartOp::Left),
        OP::Right => Action::Part(PartOp::Right),
        OP::BitInvert => Action::Bits(BitOp::Invert),
        OP::IsUTF8 => Action::Text(TextOp::IsUTF8),
        OP::Add1 => Action::Unary(UnaryOp::Add1),
        OP::Sub1 => Action::Unary(UnaryOp::Sub1),
        OP::Min => Action::Binary(Arith::Min),
        OP::Max => Action::Binary(Arith::Max),
        OP::Within => Action::Within,
        OP::BoolAnd => Action::BoolAnd,
        OP::BoolOr => Action::BoolOr,
        OP::Negate => Action::Unary(UnaryOp::Negate),
        OP::Abs => Action::Unary(UnaryOp::Abs),
        OP::PushPrevScriptOuts => Action::Stage(StageOp::PushPrevScriptOuts),
        OP::PushPrevScriptOutsLen => Action::Context(ContextField::PrevOutputsLen),
        OP::PushPrevScriptOut => Action::Stage(StageOp::PushPrevScriptOut),
        OP::PushExecCount => Action::Context(ContextField::ExecCount),
        OP::FlushToScriptOuts => Action::Stage(StageOp::FlushToScriptOuts),
        OP::PopToScriptOuts => Action::Stage(StageOp::PopToScriptOuts),
        OP::PickToScriptOuts => Action::Stage(StageOp::PickToScriptOuts),
        OP::ToHex => Action::Text(TextOp::ToHex),
        OP::FromHex => Action::Text(TextOp::FromHex),
        OP::Concat => Action::Concat,
        OP::Eq => Action::Compare(Relation::Eq),
        OP::Neq => Action::Compare(Relation::Neq),
        OP::If => Action::If(Condition::IfTrue),
        OP::Ifn => Action::If(Condition::IfFalse),
        OP::Else => Action::Else,
        OP::End => Action::End,
        OP::Verify => Action::Verify(Condition::IfTrue),
        OP::Return => Action::Return,
        OP::EqVerify => Action::Verify(Condition::IfRelated(Relation::Eq)),
        OP::Lt => Action::Compare(Relation::Lt),
        OP::Gt => Action::Compare(Relation::Gt),
        OP::Leq => Action::Compare(Relation::Leq),
        OP::Geq => Action::Compare(Relation::Geq),
        OP::IfLt => Action::If(Condition::IfRelated(Relation::Lt)),
        OP::IfGt => Action::If(Condition::IfRelated(Relation::Gt)),
        OP::IfLeq => Action::If(Condition::IfRelated(Relation::Leq)),
        OP::IfGeq => Action::If(Condition::IfRelated(Relation::Geq)),
        OP::IfEq => Action::If(Condition::IfRelated(Relation::Eq)),
        OP::IfNeq => Action::If(Condition::IfRelated(Relation::Neq)),
        OP::LtVerify => Action::Verify(Condition::IfRelated(Relation::Lt)),
        OP::GtVerify => Action::Verify(Condition::IfRelated(Relation::Gt)),
        OP::LeqVerify => Action::Verify(Condition::IfRelated(Relation::Leq)),
        OP::GeqVerify => Action::Verify(Condition::IfRelated(Relation::Geq)),
        OP::NeqVerify => Action::Verify(Condition::IfRelated(Relation::Neq)),
        OP::CastTo => Action::Cast,
        OP::PushOut => Action::PushOut(OutputKind::Plain, Condition::Always),
        OP::PushOutVerify => Action::PushOutVerify,
        OP::PushCoinbaseOut => Action::PushOut(OutputKind::Coinbase, Condition::Always),
        OP::PushColouredCoinbaseOut => Action::PushOut(OutputKind::ColouredCoinbase, Condition::Always),
        OP::PushOutIf => Action::PushOut(OutputKind::Plain, Condition::IfTrue),
        OP::PushOutIfEq => Action::PushOut(OutputKind::Plain, Condition::IfRelated(Relation::Eq)),
        OP::PushOutIfNeq => Action::PushOut(OutputKind::Plain, Condition::IfRelated(Relation::Neq)),
        OP::PushOutIfLt => Action::PushOut(OutputKind::Plain, Condition::IfRelated(Relation::Lt)),
        OP::PushOutIfGt => Action::PushOut(OutputKind::Plain, Condition::IfRelated(Relation::Gt)),
        OP::PushOutIfLeq => Action::PushOut(OutputKind::Plain, Condition::IfRelated(Relation::Leq)),
        OP::PushOutIfGeq => Action::PushOut(OutputKind::Plain, Condition::IfRelated(Relation::Geq)),
        OP::HasInput => Action::Context(ContextField::HasInput),
        OP::HasOutput => Action::Context(ContextField::HasOutput),
        OP::HasColouredInput => Action::Context(ContextField::HasColouredInput),
        OP::HasColouredOutput => Action::Context(ContextField::HasColouredOutput),
        OP::Sha256 => Action::Hash(HashFunction::Sha256),
        OP::Sha512 => Action::Hash(HashFunction::Sha512),
        OP::Keccak256 => Action::Hash(HashFunction::Keccak256),
        OP::Keccak512 => Action::Hash(HashFunction::Keccak512),
        OP::Blake2b256 => Action::Hash(HashFunction::Blake2b256),
        OP::Blake2b512 => Action::Hash(HashFunction::Blake2b512),
        OP::Blake3_160 => Action::Hash(HashFunction::Blake3_160),
        OP::Blake3_256 => Action::Hash(HashFunction::Blake3_256),
        OP::Blake3_512 => Action::Hash(HashFunction::Blake3_512),
        OP::Blake3_256Keyed => Action::KeyedHash(DigestLength::Bits256),
        OP::Blake3_512Keyed => Action::KeyedHash(DigestLength::Bits512),
        OP::Blake3_160Keyed => Action::KeyedHash(DigestLength::Bits160),
        OP::Ripemd160 => Action::Hash(HashFunction::Ripemd160),
        OP::Nop => Action::Nop,
        OP::Func
        | OP::Call
        | OP::ReturnFunc
        | OP::Blake3_256_160
        | OP::Blake3_256Internal
        | OP::Blake3_512Internal
        | OP::Blake3_256_160Internal => Action::Unsupported,
    }
}

/// What the instruction `op` does.
pub fn classify(op: OP) -> (action: Action)
    ensures
        action == action_of(op),
{
    match op {
        OP::ChainId => Action::Context(ContextField::ChainId),
        OP::ChainHeight => Action::Context(ContextField::ChainHeight),
        OP::ChainTimestamp => Action::Context(ContextField::ChainTimestamp),
        OP::IsCoinbase => Action::Context(ContextField::IsCoinbase),
        OP::PrevBlockHash => Action::Context(ContextField::PrevBlockHash),
        OP::NSequence => Action::Context(ContextField::NSequence),
        OP::RandomHash160Var => Action::Random(Kind::Hash160),
        OP::RandomHash256Var => Action::Random(Kind::Hash256),
        OP::RandomHash512Var => Action::Random(Kind::Hash512),
        OP::RandomUnsigned8 => Action::Random(Kind::Unsigned8),
        OP::RandomUnsigned16 => Action::Random(Kind::Unsigned16),
        OP::RandomUnsigned32 => Action::Random(Kind::Unsigned32),
        OP::RandomUnsigned64 => Action::Random(Kind::Unsigned64),
        OP::RandomUnsigned128 => Action::Random(Kind::Unsigned128),
        OP::RandomSigned8 => Action::Random(Kind::Signed8),
        OP::RandomSigned16 => Action::Random(Kind::Signed16),
        OP::RandomSigned32 => Action::Random(Kind::Signed32),
        OP::RandomSigned64 => Action::Random(Kind::Signed64),
        OP::RandomSigned128 => Action::Random(Kind::Signed128),
        OP::Hash160Var => Action::Literal(false, Kind::Hash160),
        OP::Hash256Var => Action::Literal(false, Kind::Hash256),
        OP::Hash512Var => Action::Literal(false, Kind::Hash512),
        OP::Unsigned8Var => Action::Literal(false, Kind::Unsigned8),
        OP::Unsigned16Var => Action::Literal(false, Kind::Unsigned16),
        OP::Unsigned32Var => Action::Literal(false, Kind::Unsigned32),
        OP::Unsigned64Var => Action::Literal(false, Kind::Unsigned64),
        OP::Unsigned128Var => Action::Literal(false, Kind::Unsigned128),
        OP::UnsignedBigVar => Action::Literal(false, Kind::UnsignedBig),
        OP::Signed8Var => Action::Literal(false, Kind::Signed8),
        OP::Signed16Var => Action::Literal(false, Kind::Signed16),
        OP::Signed32Var => Action::Literal(false, Kind::Signed32),
        OP::Signed64Var => Action::Literal(false, Kind::Signed64),
        OP::Signed128Var => Action::Literal(false, Kind::Signed128),
        OP::SignedBigVar => Action::Literal(false, Kind::SignedBig),
        OP::Hash160ArrayVar => Action::Literal(true, Kind::Hash160),
        OP::Hash256ArrayVar => Action::Literal(true, Kind::Hash256),
        OP::Hash512ArrayVar => Action::Literal(true, Kind::Hash512),
        OP::Unsigned8ArrayVar => Action::Literal(true, Kind::Unsigned8),
        OP::Unsigned16ArrayVar => Action::Literal(true, Kind::Unsigned16),
        OP::Unsigned32ArrayVar => Action::Literal(true, Kind::Unsigned32),
        OP::Unsigned64ArrayVar => Action::Literal(true, Kind::Unsigned64),
        OP::Unsigned128ArrayVar => Action::Literal(true, Kind::Unsigned128),
        OP::UnsignedBigArrayVar => Action::Literal(true, Kind::UnsignedBig),
        OP::Signed8ArrayVar => Action::Literal(true, Kind::Signed8),
        OP::Signed16ArrayVar => Action::Literal(true, Kind::Signed16),
        OP::Signed32ArrayVar => Action::Literal(true, Kind::Signed32),
        OP::Signed64ArrayVar => Action::Literal(true, Kind::Signed64),
        OP::Signed128ArrayVar => Action::Literal(true, Kind::Signed128),
        OP::SignedBigArrayVar => Action::Literal(true, Kind::SignedBig),
        OP::ArrayLen => Action::Unary(UnaryOp::ArrayLen),
        OP::GetType => Action::Unary(UnaryOp::GetType),
        OP::IsNaN => Action::Unary(UnaryOp::IsNaN),
        OP::IsInf => Action::Unary(UnaryOp::IsInf),
        OP::IsMinusInf => Action::Unary(UnaryOp::IsMinusInf),
        OP::ClearStack => Action::Stack(StackOp::ClearStack),
        OP::Add => Action::Binary(Arith::Add),
        OP::Sub => Action::Binary(Arith::Sub),
        OP::Mult => Action::Binary(Arith::Mul),
        OP::Div => Action::Binary(Arith::Div),
        OP::BitSHLeft => Action::Bits(BitOp::ShiftLeft),
        OP::BitSHRight => Action::Bits(BitOp::ShiftRight),
        OP::BitXOR => Action::Bits(BitOp::Xor),
        OP::Loop => Action::Loop,
        OP::Break => Action::Break(Condition::Always),
        OP::BreakIf => Action::Break(Condition::IfTrue),
        OP::BreakIfn => Action::Break(Condition::IfFalse),
        OP::BreakIfEq => Action::Break(Condition::IfRelated(Relation::Eq)),
        OP::BreakIfNeq => Action::Break(Condition::IfRelated(Relation::Neq)),
        OP::BreakIfLeq => Action::Break(Condition::IfRelated(Relation::Leq)),
        OP::BreakIfGeq => Action::Break(Condition::IfRelated(Relation::Geq)),
        OP::BreakIfLt => Action::Break(Condition::IfRelated(Relation::Lt)),
        OP::BreakIfGt => Action::Break(Condition::IfRelated(Relation::Gt)),
        OP::Continue => Action::Continue(Condition::Always),
        OP::ContinueIf => Action::Continue(Condition::IfTrue),
        OP::ContinueIfn => Action::Continue(Condition::IfFalse),
        OP::ContinueIfEq => Action::Continue(Condition::IfRelated(Relation::Eq)),
        OP::ContinueIfNeq => Action::Continue(Condition::IfRelated(Relation::Neq)),
        OP::ContinueIfLeq => Action::Continue(Condition::IfRelated(Relation::Leq)),
        OP::ContinueIfGeq => Action::Continue(Condition::IfRelated(Relation::Geq)),
        OP::ContinueIfLt => Action::Continue(Condition::IfRelated(Relation::Lt)),
        OP::ContinueIfGt => Action::Continue(Condition::IfRelated(Relation::Gt)),
        OP::Depth => Action::Stack(StackOp::Depth),
        OP::IfDup => Action::Stack(StackOp::IfDup),
        OP::Drop => Action::Stack(StackOp::Drop),
        OP::Dup => Action::Stack(StackOp::Dup),
        OP::Nip => Action::Stack(StackOp::Nip),
        OP::Over => Action::Stack(StackOp::Over),
        OP::Pick => Action::Stack(StackOp::Pick),
        OP::Roll => Action::Stack(StackOp::Roll),
        OP::Rot => Action::Stack(StackOp::Rot),
        OP::Swap => Action::Stack(StackOp::Swap),
        OP::Tuck => Action::Stack(StackOp::Tuck),
        OP::Drop2 => Action::Stack(StackOp::Drop2),
        OP::Dup2 => Action::Stack(StackOp::Dup2),
        OP::Dup3 => Action::Stack(StackOp::Dup3),
        OP::Over2 => Action::Stack(StackOp::Over2),
        OP::Rot2 => Action::Stack(StackOp::Rot2),
        OP::Swap2 => Action::Stack(StackOp::Swap2),
        OP::Size => Action::Unary(UnaryOp::Size),
        OP::Substr => Action::Part(PartOp::Substr),
        OP::Left => Action::Part(PartOp::Left),
        OP::Right => Action::Part(PartOp::Right),
        OP::BitInvert => Action::Bits(BitOp::Invert),
        OP::IsUTF8 => Action::Text(TextOp::IsUTF8),
        OP::Add1 => Action::Unary(UnaryOp::Add1),
        OP::Sub1 => Action::Unary(UnaryOp::Sub1),
        OP::Min => Action::Binary(Arith::Min),
        OP::Max => Action::Binary(Arith::Max),
        OP::Within => Action::Within,
        OP::BoolAnd => Action::BoolAnd,
        OP::BoolOr => Action::BoolOr,
        OP::Negate => Action::Unary(UnaryOp::Negate),
        OP::Abs => Action::Unary(UnaryOp::Abs),
        OP::PushPrevScriptOuts => Action::Stage(StageOp::PushPrevScriptOuts),
        OP::PushPrevScriptOutsLen => Action::Context(ContextField::PrevOutputsLen),
        OP::PushPrevScriptOut => Action::Stage(StageOp::PushPrevScriptOut),
        OP::PushExecCount => Action::Context(ContextField::ExecCount),
        OP::FlushToScriptOuts => Action::Stage(StageOp::FlushToScriptOuts),
        OP::PopToScriptOuts => Action::Stage(StageOp::PopToScriptOuts),
        OP::PickToScriptOuts => Action::Stage(StageOp::PickToScriptOuts),
        OP::ToHex => Action::Text(TextOp::ToHex),
        OP::FromHex => Action::Text(TextOp::FromHex),
        OP::Concat => Action::Concat,
        OP::Eq => Action::Compare(Relation::Eq),
        OP::Neq => Action::Compare(Relation::Neq),
        OP::If => Action::If(Condition::IfTrue),
        OP::Ifn => Action::If(Condition::IfFalse),
        OP::Else => Action::Else,
        OP::End => Action::End,
        OP::Verify => Action::Verify(Condition::IfTrue),
        OP::Return => Action::Return,
        OP::EqVerify => Action::Verify(Condition::IfRelated(Relation::Eq)),
        OP::Lt => Action::Compare(Relation::Lt),
        OP::Gt => Action::Compare(Relation::Gt),
        OP::Leq => Action::Compare(Relation::Leq),
        OP::Geq => Action::Compare(Relation::Geq),
        OP::IfLt => Action::If(Condition::IfRelated(Relation::Lt)),
        OP::IfGt => Action::If(Condition::IfRelated(Relation::Gt)),
        OP::IfLeq => Action::If(Condition::IfRelated(Relation::Leq)),
        OP::IfGeq => Action::If(Condition::IfRelated(Relation::Geq)),
        OP::IfEq => Action::If(Condition::IfRelated(Relation::Eq)),
        OP::IfNeq => Action::If(Condition::IfRelated(Relation::Neq)),
        OP::LtVerify => Action::Verify(Condition::IfRelated(Relation::Lt)),
        OP::GtVerify => Action::Verify(Condition::IfRelated(Relation::Gt)),
        OP::LeqVerify => Action::Verify(Condition::IfRelated(Relation::Leq)),
        OP::GeqVerify => Action::Verify(Condition::IfRelated(Relation::Geq)),
        OP::NeqVerify => Action::Verify(Condition::IfRelated(Relation::Neq)),
        OP::CastTo => Action::Cast,
        OP::PushOut => Action::PushOut(OutputKind::Plain, Condition::Always),
        OP::PushOutVerify => Action::PushOutVerify,
        OP::PushCoinbaseOut => Action::PushOut(OutputKind::Coinbase, Condition::Always),
        OP::PushColouredCoinbaseOut => Action::PushOut(OutputKind::ColouredCoinbase, Condition::Always),
        OP::PushOutIf => Action::PushOut(OutputKind::Plain, Condition::IfTrue),
        OP::PushOutIfEq => Action::PushOut(OutputKind::Plain, Condition::IfRelated(Relation::Eq)),
        OP::PushOutIfNeq => Action::PushOut(OutputKind::Plain, Condition::IfRelated(Relation::Neq)),
        OP::PushOutIfLt => Action::PushOut(OutputKind::Plain, Condition::IfRelated(Relation::Lt)),
        OP::PushOutIfGt => Action::PushOut(OutputKind::Plain, Condition::IfRelated(Relation::Gt)),
        OP::PushOutIfLeq => Action::PushOut(OutputKind::Plain, Condition::IfRelated(Relation::Leq)),
        OP::PushOutIfGeq => Action::PushOut(OutputKind::Plain, Condition::IfRelated(Relation::Geq)),
        OP::HasInput => Action::Context(ContextField::HasInput),
        OP::HasOutput => Action::Context(ContextField::HasOutput),
        OP::HasColouredInput => Action::Context(ContextField::HasColouredInput),
        OP::HasColouredOutput => Action::Context(ContextField::HasColouredOutput),
        OP::Sha256 => Action::Hash(HashFunction::Sha256),
        OP::Sha512 => Action::Hash(HashFunction::Sha512),
        OP::Keccak256 => Action::Hash(HashFunction::Keccak256),
        OP::Keccak512 => Action::Hash(HashFunction::Keccak512),
        OP::Blake2b256 => Action::Hash(HashFunction::Blake2b256),
        OP::Blake2b512 => Action::Hash(HashFunction::Blake2b512),
        OP::Blake3_160 => Action::Hash(HashFunction::Blake3_160),
        OP::Blake3_256 => Action::Hash(HashFunction::Blake3_256),
        OP::Blake3_512 => Action::Hash(HashFunction::Blake3_512),
        OP::Blake3_256Keyed => Action::KeyedHash(DigestLength::Bits256),
        OP::Blake3_512Keyed => Action::KeyedHash(DigestLength::Bits512),
        OP::Blake3_160Keyed => Action::KeyedHash(DigestLength::Bits160),
        OP::Ripemd160 => Action::Hash(HashFunction::Ripemd160),
        OP::Nop => Action::Nop,
        OP::Func
        | OP::Call
        | OP::ReturnFunc
        | OP::Blake3_256_160
        | OP::Blake3_256Internal
        | OP::Blake3_512Internal
        | OP::Blake3_256_160Internal => Action::Unsupported,
    }
}

} // verus!
