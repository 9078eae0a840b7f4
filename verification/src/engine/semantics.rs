//! What the machine does, as mathematics: the state, the change that each instruction
//! makes to it, and the run of a whole script.
//!
//! An instruction that finds too few terms on the stack faults. An instruction that finds
//! terms it is not for fails the script, as does a calculation without a result: no term
//! is ever cast to another kind to make an instruction fit. Every instruction costs one
//! unit, and every term that an instruction makes (a literal, a copy, a result) costs its
//! virtual size on top; where the cost of the run would pass the limit, the script fails.

use vstd::prelude::*;
use crate::encoding::array_tag;
use crate::encoding::scalar_tag;
use crate::endian::magnitude;
use crate::engine::action::action_of;
use crate::engine::action::Action;
use crate::engine::action::Condition;
use crate::engine::action::ContextField;
use crate::engine::action::OutputKind;
use crate::engine::action::PartOp;
use crate::engine::action::TextOp;
use crate::engine::bitwise::inverted;
use crate::engine::bitwise::shifted_left;
use crate::engine::bitwise::shifted_right;
use crate::engine::bitwise::xored;
use crate::engine::bitwise::BitOp;
use crate::engine::bytes::from_hex;
use crate::engine::bytes::hashed;
use crate::engine::bytes::is_utf8;
use crate::engine::bytes::keyed_hashed;
use crate::engine::bytes::to_hex;
use crate::engine::casts::cast_target;
use crate::engine::action::StackOp;
use crate::engine::action::StageOp;
use crate::engine::action::UnaryOp;
use crate::engine::context::ContextModel;
use crate::engine::context::OutcomeModel;
use crate::engine::context::OutputModel;
use crate::engine::context::Verdict;
use crate::engine::program::compile;
use crate::engine::random::drawn;
use crate::engine::program::ProgramModel;
use crate::engine::stack::at_depth;
use crate::engine::stack::without_depth;
use crate::model::Arith;
use crate::model::Kind;
use crate::model::TermModel;
use crate::model::Value;

verus! {

/// The state of the machine.
pub struct MachineModel {
    /// The evaluation stack; its top is the last term.
    pub stack: Seq<TermModel>,
    /// The terms that are staged for the next output.
    pub staged: Seq<TermModel>,
    /// The outputs that were made so far.
    pub outputs: Seq<OutputModel>,
    /// The instruction that is next.
    pub ip: nat,
    /// The cost of the run so far.
    pub meter: nat,
    /// The number of instructions that ran so far.
    pub executed: nat,
}

/// What one instruction changes: the stack, the staged terms, the outputs and the
/// instruction that is next, and what that costs on top of the instruction's own unit.
pub struct Change {
    pub stack: Seq<TermModel>,
    pub staged: Seq<TermModel>,
    pub outputs: Seq<OutputModel>,
    pub next: nat,
    pub cost: nat,
}

/// The term that stands for true or false: the 8-bit number one or zero.
pub open spec fn boolean(truth: bool) -> TermModel {
    TermModel::Scalar(Kind::Unsigned8, Value::Number(if truth {
        1
    } else {
        0
    }))
}

/// The 64-bit number `n`.
pub open spec fn unsigned64(n: nat) -> TermModel {
    TermModel::Scalar(Kind::Unsigned64, Value::Number(n as int))
}

/// The virtual sizes of `terms`, added up.
pub open spec fn sizes(terms: Seq<TermModel>) -> nat
    decreases terms.len(),
{
    if terms.len() == 0 {
        0
    } else {
        sizes(terms.drop_last()) + terms.last().virtual_size()
    }
}

/// The terms of `outputs`, one output after the other.
pub open spec fn all_terms(outputs: Seq<OutputModel>) -> Seq<TermModel>
    decreases outputs.len(),
{
    if outputs.len() == 0 {
        Seq::empty()
    } else {
        all_terms(outputs.drop_last()) + outputs.last().terms
    }
}

/// Whether one of `outputs` is coloured.
pub open spec fn any_coloured(outputs: Seq<OutputModel>) -> bool {
    exists|i: int| 0 <= i < outputs.len() && (#[trigger] outputs[i]).coloured
}

/// Whether `condition` holds, and the stack without the terms that deciding it takes: none
/// for `Always`, the top term for `IfTrue` and `IfFalse`, which ask whether it is the number
/// one, and the two top terms for a relation, of which the upper is the right-hand side.
/// Too few terms are a fault; two terms that the relation cannot compare fail the script.
pub open spec fn decide(condition: Condition, stack: Seq<TermModel>) -> Result<
    (bool, Seq<TermModel>),
    Verdict,
> {
    match condition {
        Condition::Always => Ok((true, stack)),
        Condition::IfTrue => if stack.len() < 1 {
            Err(Verdict::Fault)
        } else {
            Ok((stack.last().is_one(), stack.drop_last()))
        },
        Condition::IfFalse => if stack.len() < 1 {
            Err(Verdict::Fault)
        } else {
            Ok((!stack.last().is_one(), stack.drop_last()))
        },
        Condition::IfRelated(relation) => if stack.len() < 2 {
            Err(Verdict::Fault)
        } else {
            match at_depth(stack, 1).related(relation, at_depth(stack, 0)) {
                None => Err(Verdict::Failure),
                Some(holds) => Ok((holds, stack.take(stack.len() - 2))),
            }
        },
    }
}

/// The term that an instruction which reads the context puts on the stack.
pub open spec fn context_term(
    field: ContextField,
    context: ContextModel,
    machine: MachineModel,
) -> TermModel {
    match field {
        ContextField::ChainId => TermModel::Scalar(
            Kind::Unsigned8,
            Value::Number(context.chain_id as int),
        ),
        ContextField::ChainHeight => TermModel::Scalar(
            Kind::Unsigned64,
            Value::Number(context.height as int),
        ),
        ContextField::ChainTimestamp => TermModel::Scalar(
            Kind::Signed64,
            Value::Number(context.timestamp as int),
        ),
        ContextField::IsCoinbase => boolean(context.is_coinbase),
        ContextField::PrevBlockHash => TermModel::Scalar(
            Kind::Hash256,
            Value::Bytes(context.prev_block_hash),
        ),
        ContextField::NSequence => TermModel::Scalar(
            Kind::Unsigned32,
            Value::Number(context.sequence as int),
        ),
        ContextField::PrevOutputsLen => unsigned64(context.prev_outputs.len()),
        ContextField::ExecCount => unsigned64(machine.executed),
        ContextField::HasInput => boolean(context.prev_outputs.len() > 0),
        ContextField::HasOutput => boolean(machine.outputs.len() > 0),
        ContextField::HasColouredInput => boolean(any_coloured(context.prev_outputs)),
        ContextField::HasColouredOutput => boolean(any_coloured(machine.outputs)),
    }
}

/// The depth that an index term names: the number of an integer scalar that is not
/// negative.
pub open spec fn index_of(term: TermModel) -> Option<nat> {
    match term.number() {
        Some(v) => if v >= 0 {
            Some(v as nat)
        } else {
            None
        },
        None => None,
    }
}

/// The depth that an index term names as a 128-bit number: the largest such number for a
/// depth beyond it, which is deeper than any stack.
pub open spec fn wide_index_of(term: TermModel) -> Option<u128> {
    match index_of(term) {
        Some(named) => Some(if named <= u128::MAX {
            named as u128
        } else {
            u128::MAX
        }),
        None => None,
    }
}

/// The stack after a rearrangement and the cost of the copies that it makes. Letters name
/// the terms from the one deepest in the stack that takes part to the top.
///
/// `Depth` puts the number of terms on. `Drop` and `Drop2` take the top term or the two top
/// terms off. `Dup`, `Dup2` and `Dup3` copy the one, two or three top terms onto the top.
/// `IfDup` copies the top term if it is the number one. `Nip` takes out the term under the
/// top. `Over` copies the term under the top onto the top, `Over2` the two terms under the
/// two top terms. `Rot` moves the third term to the top (a b c to b c a), `Rot2` the fifth
/// and sixth (a b c d e f to c d e f a b). `Swap` changes the places of the two top terms,
/// `Swap2` of the two top pairs. `Tuck` copies the top term under the second (a b to b a b).
/// `Pick` takes an index off the top and copies the term that deep onto the top; `Roll`
/// moves it there. `ClearStack` takes every term off.
pub open spec fn rearranged(op: StackOp, stack: Seq<TermModel>) -> Result<
    (Seq<TermModel>, nat),
    Verdict,
> {
    let len = stack.len() as int;
    match op {
        StackOp::Depth => Ok((stack.push(unsigned64(stack.len())), 8)),
        StackOp::Drop => if len < 1 {
            Err(Verdict::Fault)
        } else {
            Ok((stack.drop_last(), 0))
        },
        StackOp::Drop2 => if len < 2 {
            Err(Verdict::Fault)
        } else {
            Ok((stack.take(len - 2), 0))
        },
        StackOp::Dup => if len < 1 {
            Err(Verdict::Fault)
        } else {
            Ok((stack.push(at_depth(stack, 0)), at_depth(stack, 0).virtual_size()))
        },
        StackOp::Dup2 => if len < 2 {
            Err(Verdict::Fault)
        } else {
            Ok(
                (
                    stack.push(at_depth(stack, 1)).push(at_depth(stack, 0)),
                    at_depth(stack, 1).virtual_size() + at_depth(stack, 0).virtual_size(),
                ),
            )
        },
        StackOp::Dup3 => if len < 3 {
            Err(Verdict::Fault)
        } else {
            Ok(
                (
                    stack.push(at_depth(stack, 2)).push(at_depth(stack, 1)).push(
                        at_depth(stack, 0),
                    ),
                    at_depth(stack, 2).virtual_size() + at_depth(stack, 1).virtual_size()
                        + at_depth(stack, 0).virtual_size(),
                ),
            )
        },
        StackOp::IfDup => if len < 1 {
            Err(Verdict::Fault)
        } else if at_depth(stack, 0).is_one() {
            Ok((stack.push(at_depth(stack, 0)), at_depth(stack, 0).virtual_size()))
        } else {
            Ok((stack, 0))
        },
        StackOp::Nip => if len < 2 {
            Err(Verdict::Fault)
        } else {
            Ok((without_depth(stack, 1), 0))
        },
        StackOp::Over => if len < 2 {
            Err(Verdict::Fault)
        } else {
            Ok((stack.push(at_depth(stack, 1)), at_depth(stack, 1).virtual_size()))
        },
        StackOp::Over2 => if len < 4 {
            Err(Verdict::Fault)
        } else {
            Ok(
                (
                    stack.push(at_depth(stack, 3)).push(at_depth(stack, 2)),
                    at_depth(stack, 3).virtual_size() + at_depth(stack, 2).virtual_size(),
                ),
            )
        },
        StackOp::Rot => if len < 3 {
            Err(Verdict::Fault)
        } else {
            Ok((without_depth(stack, 2).push(at_depth(stack, 2)), 0))
        },
        StackOp::Rot2 => if len < 6 {
            Err(Verdict::Fault)
        } else {
            Ok(
                (
                    without_depth(without_depth(stack, 5), 4).push(at_depth(stack, 5)).push(
                        at_depth(stack, 4),
                    ),
                    0,
                ),
            )
        },
        StackOp::Swap => if len < 2 {
            Err(Verdict::Fault)
        } else {
            Ok((without_depth(stack, 1).push(at_depth(stack, 1)), 0))
        },
        StackOp::Swap2 => if len < 4 {
            Err(Verdict::Fault)
        } else {
            Ok(
                (
                    without_depth(without_depth(stack, 3), 2).push(at_depth(stack, 3)).push(
                        at_depth(stack, 2),
                    ),
                    0,
                ),
            )
        },
        StackOp::Tuck => if len < 2 {
            Err(Verdict::Fault)
        } else {
            Ok((stack.insert(len - 2, at_depth(stack, 0)), at_depth(stack, 0).virtual_size()))
        },
        StackOp::Pick => if len < 1 {
            Err(Verdict::Fault)
        } else {
            match index_of(at_depth(stack, 0)) {
                None => Err(Verdict::Failure),
                Some(depth) => if depth >= len - 1 {
                    Err(Verdict::Fault)
                } else {
                    let rest = stack.drop_last();
                    Ok(
                        (
                            rest.push(at_depth(rest, depth as int)),
                            at_depth(rest, depth as int).virtual_size(),
                        ),
                    )
                },
            }
        },
        StackOp::Roll => if len < 1 {
            Err(Verdict::Fault)
        } else {
            match index_of(at_depth(stack, 0)) {
                None => Err(Verdict::Failure),
                Some(depth) => if depth >= len - 1 {
                    Err(Verdict::Fault)
                } else {
                    let rest = stack.drop_last();
                    Ok((without_depth(rest, depth as int).push(at_depth(rest, depth as int)), 0))
                },
            }
        },
        StackOp::ClearStack => Ok((Seq::empty(), 0)),
    }
}

/// The tag byte that the canonical bytes of a term start with.
pub open spec fn type_tag(term: TermModel) -> u8 {
    match term {
        TermModel::Scalar(kind, value) => scalar_tag(kind, value),
        TermModel::Array(kind, _) => array_tag(kind),
    }
}

/// The term that an instruction on one term makes of it; none where the instruction is not
/// for such a term or has no result.
///
/// `Add1` and `Sub1` add one to an integer scalar or take one away, `Negate` changes its
/// sign and `Abs` gives its distance from zero; the result must be a number of the term's
/// kind. `ArrayLen` gives the number of elements of an array, `GetType` the tag byte of any
/// term, `Size` its virtual size in bytes, where that is below the largest 64-bit number.
/// No integer is a floating-point special value: `IsNaN`, `IsInf` and `IsMinusInf` answer
/// false for every integer scalar.
pub open spec fn unary_result(op: UnaryOp, term: TermModel) -> Option<TermModel> {
    match op {
        UnaryOp::Add1 => term.shifted(1),
        UnaryOp::Sub1 => term.shifted(-1),
        UnaryOp::Negate => match term.number() {
            Some(v) => if term.kind().contains(-v) {
                Some(TermModel::Scalar(term.kind(), Value::Number(-v)))
            } else {
                None
            },
            None => None,
        },
        UnaryOp::Abs => match term.number() {
            Some(v) => if term.kind().contains(magnitude(v) as int) {
                Some(TermModel::Scalar(term.kind(), Value::Number(magnitude(v) as int)))
            } else {
                None
            },
            None => None,
        },
        UnaryOp::ArrayLen => match term {
            TermModel::Array(_, elements) => if elements.len() <= u64::MAX {
                Some(unsigned64(elements.len()))
            } else {
                None
            },
            _ => None,
        },
        UnaryOp::GetType => Some(
            TermModel::Scalar(Kind::Unsigned8, Value::Number(type_tag(term) as int)),
        ),
        UnaryOp::Size => if term.virtual_size() < u64::MAX {
            Some(unsigned64(term.virtual_size()))
        } else {
            None
        },
        UnaryOp::IsNaN | UnaryOp::IsInf | UnaryOp::IsMinusInf => match term.number() {
            Some(_) => Some(boolean(false)),
            None => None,
        },
    }
}

/// The number `term` moved into the bounds `low` and `high`: `low` where the number is
/// below it, `high` where it is above. None unless the three are integer scalars of one
/// kind and `low` is not above `high`.
pub open spec fn clamped(term: TermModel, low: TermModel, high: TermModel) -> Option<TermModel> {
    match high.below(low) {
        Some(false) => match term.combined(Arith::Min, high) {
            Some(capped) => capped.combined(Arith::Max, low),
            None => None,
        },
        _ => None,
    }
}

/// What an instruction changes that moves terms to the staged terms or from the outputs
/// that are spent.
///
/// `PopToScriptOuts` moves the top term to the staged terms. `PickToScriptOuts` takes an
/// index off the top and copies the term that deep to the staged terms. `FlushToScriptOuts`
/// moves the whole stack, deepest term first. `PushPrevScriptOuts` copies the terms of every
/// output that is spent onto the stack, first output first. `PushPrevScriptOut` takes an
/// index off the top and copies the terms of that output onto the stack.
pub open spec fn staged_change(
    op: StageOp,
    context: ContextModel,
    machine: MachineModel,
) -> Result<Change, Verdict> {
    let stack = machine.stack;
    let len = stack.len() as int;
    let next = machine.ip + 1;
    match op {
        StageOp::PopToScriptOuts => if len < 1 {
            Err(Verdict::Fault)
        } else {
            Ok(
                Change {
                    stack: stack.drop_last(),
                    staged: machine.staged.push(stack.last()),
                    outputs: machine.outputs,
                    next,
                    cost: 0,
                },
            )
        },
        StageOp::PickToScriptOuts => if len < 1 {
            Err(Verdict::Fault)
        } else {
            match index_of(at_depth(stack, 0)) {
                None => Err(Verdict::Failure),
                Some(depth) => if depth >= len - 1 {
                    Err(Verdict::Fault)
                } else {
                    let rest = stack.drop_last();
                    Ok(
                        Change {
                            stack: rest,
                            staged: machine.staged.push(at_depth(rest, depth as int)),
                            outputs: machine.outputs,
                            next,
                            cost: at_depth(rest, depth as int).virtual_size(),
                        },
                    )
                },
            }
        },
        StageOp::FlushToScriptOuts => Ok(
            Change {
                stack: Seq::empty(),
                staged: machine.staged + stack,
                outputs: machine.outputs,
                next,
                cost: 0,
            },
        ),
        StageOp::PushPrevScriptOuts => Ok(
            Change {
                stack: stack + all_terms(context.prev_outputs),
                staged: machine.staged,
                outputs: machine.outputs,
                next,
                cost: sizes(all_terms(context.prev_outputs)),
            },
        ),
        StageOp::PushPrevScriptOut => if len < 1 {
            Err(Verdict::Fault)
        } else {
            match index_of(at_depth(stack, 0)) {
                None => Err(Verdict::Failure),
                Some(index) => if index >= context.prev_outputs.len() {
                    Err(Verdict::Failure)
                } else {
                    Ok(
                        Change {
                            stack: stack.drop_last() + context.prev_outputs[index as int].terms,
                            staged: machine.staged,
                            outputs: machine.outputs,
                            next,
                            cost: sizes(context.prev_outputs[index as int].terms),
                        },
                    )
                },
            }
        },
    }
}

/// The output that an instruction makes of the staged terms.
pub open spec fn output_of(kind: OutputKind, staged: Seq<TermModel>) -> OutputModel {
    OutputModel {
        terms: staged,
        coloured: kind is ColouredCoinbase,
        coinbase: !(kind is Plain),
    }
}

/// The stack after an instruction that calculates or compares, and the cost of the term
/// that it makes.
///
/// An instruction on one term takes it off the stack and puts the result on. A
/// calculation takes two integer scalars off, the upper of which is the right-hand side,
/// and puts the result on. `BoolAnd` and `BoolOr` take two terms off and put on whether both
/// are the number one, or one of them is. `Within` takes an upper bound, a lower bound and a
/// number off and puts the number on again, moved into the bounds. A comparison takes two
/// terms off and puts on whether the relation holds.
pub open spec fn calculated(action: Action, stack: Seq<TermModel>) -> Result<
    (Seq<TermModel>, nat),
    Verdict,
> {
    let len = stack.len() as int;
    match action {
        Action::Unary(op) => if len < 1 {
            Err(Verdict::Fault)
        } else {
            match unary_result(op, stack.last()) {
                None => Err(Verdict::Failure),
                Some(result) => Ok((stack.drop_last().push(result), result.virtual_size())),
            }
        },
        Action::Binary(op) => if len < 2 {
            Err(Verdict::Fault)
        } else {
            match at_depth(stack, 1).combined(op, at_depth(stack, 0)) {
                None => Err(Verdict::Failure),
                Some(result) => Ok((stack.take(len - 2).push(result), result.virtual_size())),
            }
        },
        Action::BoolAnd => if len < 2 {
            Err(Verdict::Fault)
        } else {
            Ok(
                (
                    stack.take(len - 2).push(
                        boolean(at_depth(stack, 1).is_one() && at_depth(stack, 0).is_one()),
                    ),
                    1,
                ),
            )
        },
        Action::BoolOr => if len < 2 {
            Err(Verdict::Fault)
        } else {
            Ok(
                (
                    stack.take(len - 2).push(
                        boolean(at_depth(stack, 1).is_one() || at_depth(stack, 0).is_one()),
                    ),
                    1,
                ),
            )
        },
        Action::Within => if len < 3 {
            Err(Verdict::Fault)
        } else {
            match clamped(at_depth(stack, 2), at_depth(stack, 1), at_depth(stack, 0)) {
                None => Err(Verdict::Failure),
                Some(result) => Ok((stack.take(len - 3).push(result), result.virtual_size())),
            }
        },
        Action::Compare(relation) => match decide(Condition::IfRelated(relation), stack) {
            Err(verdict) => Err(verdict),
            Ok((holds, stack)) => Ok((stack.push(boolean(holds)), 1)),
        },
        _ => Ok((stack, 0)),
    }
}

/// The term that an instruction which changes the form of terms makes of the terms it takes
/// off the stack; none where the instruction is not for such terms or has no result. The
/// stack holds as many terms as the instruction takes.
///
/// A hash instruction takes a term that bears bytes and makes its hash; a keyed hash
/// instruction takes a key on top of such a term. `BitXOR` takes two unsigned integers of
/// one fixed width, `BitInvert` one; `BitSHLeft` and `BitSHRight` take a number of places
/// on top of such an integer. `ToHex` and `FromHex` take an array of bytes and make the
/// array of its hexadecimal text, or of the bytes that it stands for as such text; `IsUTF8`
/// answers whether it is valid UTF-8. `Concat` takes two arrays of one kind and makes one
/// of them. `Left` and `Right` take a count on top of an array and make the array of its
/// first or last elements; `Substr` takes a count on top of a start on top of an array.
/// `CastTo` takes the tag byte of an integer kind on top of an integer scalar.
#[verifier::opaque]
pub open spec fn transformed_term(action: Action, stack: Seq<TermModel>) -> Option<TermModel> {
    match action {
        Action::Hash(function) => hashed(function, at_depth(stack, 0)),
        Action::KeyedHash(length) => keyed_hashed(length, at_depth(stack, 1), at_depth(stack, 0)),
        Action::Bits(BitOp::Xor) => xored(at_depth(stack, 1), at_depth(stack, 0)),
        Action::Bits(BitOp::Invert) => inverted(at_depth(stack, 0)),
        Action::Bits(BitOp::ShiftLeft) => match index_of(at_depth(stack, 0)) {
            Some(by) => shifted_left(at_depth(stack, 1), by),
            None => None,
        },
        Action::Bits(BitOp::ShiftRight) => match index_of(at_depth(stack, 0)) {
            Some(by) => shifted_right(at_depth(stack, 1), by),
            None => None,
        },
        Action::Text(TextOp::ToHex) => to_hex(at_depth(stack, 0)),
        Action::Text(TextOp::FromHex) => from_hex(at_depth(stack, 0)),
        Action::Text(TextOp::IsUTF8) => match is_utf8(at_depth(stack, 0)) {
            Some(valid) => Some(boolean(valid)),
            None => None,
        },
        Action::Concat => at_depth(stack, 1).joined(at_depth(stack, 0)),
        Action::Part(PartOp::Left) => match index_of(at_depth(stack, 0)) {
            Some(count) => at_depth(stack, 1).part(0, count),
            None => None,
        },
        Action::Part(PartOp::Right) => match (index_of(at_depth(stack, 0)), at_depth(stack, 1)) {
            (Some(count), TermModel::Array(_, elements)) => if count <= elements.len() {
                at_depth(stack, 1).part((elements.len() - count) as nat, count)
            } else {
                None
            },
            _ => None,
        },
        Action::Part(PartOp::Substr) => match (
            index_of(at_depth(stack, 1)),
            index_of(at_depth(stack, 0)),
        ) {
            (Some(from), Some(count)) => at_depth(stack, 2).part(from, count),
            _ => None,
        },
        Action::Cast => match cast_target(at_depth(stack, 0)) {
            Some(target) => at_depth(stack, 1).cast(target),
            None => None,
        },
        _ => None,
    }
}

/// The number of terms that an instruction which changes the form of terms takes off the
/// stack.
pub open spec fn taken(action: Action) -> nat {
    match action {
        Action::Hash(_)
        | Action::Bits(BitOp::Invert)
        | Action::Text(_) => 1,
        Action::Part(PartOp::Substr) => 3,
        _ => 2,
    }
}

/// The stack after an instruction that changes the form of terms, and the cost of the term
/// that it makes. An instruction that finds fewer terms than it takes faults; one without
/// a result fails the script.
pub open spec fn transformed(action: Action, stack: Seq<TermModel>) -> Result<
    (Seq<TermModel>, nat),
    Verdict,
> {
    if stack.len() < taken(action) {
        Err(Verdict::Fault)
    } else {
        match transformed_term(action, stack) {
            None => Err(Verdict::Failure),
            Some(result) => Ok(
                (stack.take(stack.len() - taken(action)).push(result), result.virtual_size()),
            ),
        }
    }
}

/// The stack after an instruction that directs the run, and the instruction that is next.
///
/// `Verify` fails the script unless its condition holds. An `If` goes on with the next
/// instruction if its condition holds and with its target if not. `Else` and `End` go on
/// with their target. A break whose condition holds goes on behind the `End` of the loop
/// that its target opens, a continue whose condition holds behind that `Loop`. `Return` ends
/// the run with success. A break or a continue whose target is no instruction of the
/// program is a fault; a program that was read from a script has none.
pub open spec fn directed(action: Action, program: ProgramModel, machine: MachineModel) -> Result<
    (Seq<TermModel>, nat),
    Verdict,
> {
    let stack = machine.stack;
    let next = machine.ip + 1;
    let target = program.targets[machine.ip as int];
    match action {
        Action::Verify(condition) => match decide(condition, stack) {
            Err(verdict) => Err(verdict),
            Ok((holds, stack)) => if holds {
                Ok((stack, next))
            } else {
                Err(Verdict::Failure)
            },
        },
        Action::If(condition) => match decide(condition, stack) {
            Err(verdict) => Err(verdict),
            Ok((holds, stack)) => Ok((stack, if holds {
                next
            } else {
                target
            })),
        },
        Action::Else | Action::End => Ok((stack, target)),
        Action::Break(condition) => match decide(condition, stack) {
            Err(verdict) => Err(verdict),
            Ok((holds, stack)) => if !holds {
                Ok((stack, next))
            } else if target >= program.targets.len() || program.targets[target as int]
                >= program.targets.len() {
                Err(Verdict::Fault)
            } else {
                Ok((stack, program.targets[target as int] + 1))
            },
        },
        Action::Continue(condition) => match decide(condition, stack) {
            Err(verdict) => Err(verdict),
            Ok((holds, stack)) => if !holds {
                Ok((stack, next))
            } else if target >= program.targets.len() {
                Err(Verdict::Fault)
            } else {
                Ok((stack, target + 1))
            },
        },
        Action::Return => Err(Verdict::Success),
        _ => Ok((stack, next)),
    }
}

/// The stack, the staged terms and the outputs after an instruction that makes an output.
///
/// `PushOut` makes an output of the staged terms if its condition holds, and no term is
/// staged after it. An output with the coinbase marker can only be made where the context
/// is that of a coinbase: elsewhere the script fails. `PushOutVerify` fails the script
/// unless the term it takes off the stack is the number one, and else makes an output.
pub open spec fn emitted(action: Action, context: ContextModel, machine: MachineModel) -> Result<
    (Seq<TermModel>, Seq<TermModel>, Seq<OutputModel>),
    Verdict,
> {
    match action {
        Action::PushOut(kind, condition) => match decide(condition, machine.stack) {
            Err(verdict) => Err(verdict),
            Ok((holds, stack)) => if !holds {
                Ok((stack, machine.staged, machine.outputs))
            } else if !(kind is Plain) && !context.is_coinbase {
                Err(Verdict::Failure)
            } else {
                Ok((stack, Seq::empty(), machine.outputs.push(output_of(kind, machine.staged))))
            },
        },
        Action::PushOutVerify => match decide(Condition::IfTrue, machine.stack) {
            Err(verdict) => Err(verdict),
            Ok((holds, stack)) => if !holds {
                Err(Verdict::Failure)
            } else {
                Ok(
                    (
                        stack,
                        Seq::empty(),
                        machine.outputs.push(output_of(OutputKind::Plain, machine.staged)),
                    ),
                )
            },
        },
        _ => Ok((machine.stack, machine.staged, machine.outputs)),
    }
}

/// What the instruction at `machine.ip` changes, or the verdict that it ends the run with.
/// An instruction that puts a literal on the stack puts its operand there, one that draws
/// a term the term that is drawn at this place of the run. An instruction that this engine
/// does not run fails the script.
pub open spec fn effect(program: ProgramModel, context: ContextModel, machine: MachineModel) -> Result<
    Change,
    Verdict,
> {
    let stack = machine.stack;
    let ip = machine.ip as int;
    let action = action_of(program.ops[ip]);
    let same = Change {
        stack,
        staged: machine.staged,
        outputs: machine.outputs,
        next: machine.ip + 1,
        cost: 0,
    };
    match action {
        Action::Literal(_, _) => match program.operands[ip] {
            Some(term) => Ok(Change { stack: stack.push(term), cost: term.virtual_size(), ..same }),
            None => Err(Verdict::Fault),
        },
        Action::Context(field) => {
            let term = context_term(field, context, machine);
            Ok(Change { stack: stack.push(term), cost: term.virtual_size(), ..same })
        },
        Action::Random(kind) => if kind.is_big() {
            Err(Verdict::Failure)
        } else {
            let term = drawn(kind, context, machine.executed);
            Ok(Change { stack: stack.push(term), cost: term.virtual_size(), ..same })
        },
        Action::Stack(op) => match rearranged(op, stack) {
            Err(verdict) => Err(verdict),
            Ok((stack, cost)) => Ok(Change { stack, cost, ..same }),
        },
        Action::Unary(_)
        | Action::Binary(_)
        | Action::BoolAnd
        | Action::BoolOr
        | Action::Within
        | Action::Compare(_) => match calculated(action, stack) {
            Err(verdict) => Err(verdict),
            Ok((stack, cost)) => Ok(Change { stack, cost, ..same }),
        },
        Action::Hash(_)
        | Action::KeyedHash(_)
        | Action::Bits(_)
        | Action::Text(_)
        | Action::Concat
        | Action::Part(_)
        | Action::Cast => match transformed(action, stack) {
            Err(verdict) => Err(verdict),
            Ok((stack, cost)) => Ok(Change { stack, cost, ..same }),
        },
        Action::Nop
        | Action::Loop
        | Action::Verify(_)
        | Action::If(_)
        | Action::Else
        | Action::End
        | Action::Break(_)
        | Action::Continue(_)
        | Action::Return => match directed(action, program, machine) {
            Err(verdict) => Err(verdict),
            Ok((stack, next)) => Ok(Change { stack, next, ..same }),
        },
        Action::Stage(op) => staged_change(op, context, machine),
        Action::PushOut(_, _) | Action::PushOutVerify => match emitted(action, context, machine) {
            Err(verdict) => Err(verdict),
            Ok((stack, staged, outputs)) => Ok(Change { stack, staged, outputs, ..same }),
        },
        Action::Unsupported => Err(Verdict::Failure),
    }
}

/// The state after the instruction at `machine.ip`, or the verdict that the instruction
/// ends the run with. The instruction costs one unit and what it makes; where the cost of
/// the run would pass `limit`, the script fails.
pub open spec fn step(
    program: ProgramModel,
    context: ContextModel,
    limit: nat,
    machine: MachineModel,
) -> Result<MachineModel, Verdict> {
    match effect(program, context, machine) {
        Err(verdict) => Err(verdict),
        Ok(change) => if machine.meter + 1 + change.cost > limit {
            Err(Verdict::Failure)
        } else {
            Ok(
                MachineModel {
                    stack: change.stack,
                    staged: change.staged,
                    outputs: change.outputs,
                    ip: change.next,
                    meter: machine.meter + 1 + change.cost,
                    executed: machine.executed + 1,
                },
            )
        },
    }
}

/// The outcome of a run that ends with `verdict` in the state `machine`: only a
/// successful run has outputs.
pub open spec fn outcome_of(verdict: Verdict, machine: MachineModel) -> OutcomeModel {
    OutcomeModel {
        verdict,
        outputs: if verdict is Success {
            machine.outputs
        } else {
            Seq::empty()
        },
    }
}

/// The outcome of the run from the state `machine` on: instruction after instruction, until
/// one ends the run or the script is at its end, which is a success. The run cannot go on
/// for ever, since every instruction costs at least one unit of a cost that may not pass
/// `limit`.
pub open spec fn run_from(
    program: ProgramModel,
    context: ContextModel,
    limit: nat,
    machine: MachineModel,
) -> OutcomeModel
    decreases limit - machine.meter,
{
    if machine.ip >= program.ops.len() {
        outcome_of(Verdict::Success, machine)
    } else {
        match step(program, context, limit, machine) {
            Err(verdict) => outcome_of(verdict, machine),
            Ok(after) => run_from(program, context, limit, after),
        }
    }
}

/// The state in which a run starts: the given terms on the stack, nothing staged, no
/// output, the first instruction next.
pub open spec fn initial(arguments: Seq<TermModel>) -> MachineModel {
    MachineModel {
        stack: arguments,
        staged: Seq::empty(),
        outputs: Seq::empty(),
        ip: 0,
        meter: 0,
        executed: 0,
    }
}

/// The outcome of running `script` on `arguments` in `context` under the cost limit
/// `limit`. A script that is not well formed faults before any instruction runs.
pub open spec fn evaluate(
    script: Seq<u8>,
    arguments: Seq<TermModel>,
    context: ContextModel,
    limit: nat,
) -> OutcomeModel {
    match compile(script) {
        None => OutcomeModel { verdict: Verdict::Fault, outputs: Seq::empty() },
        Some(program) => run_from(program, context, limit, initial(arguments)),
    }
}

} // verus!
