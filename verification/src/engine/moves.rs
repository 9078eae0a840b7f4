//! Deciding conditions and rearranging the stack.

use vstd::prelude::*;
use crate::engine::action::Condition;
use crate::engine::action::StackOp;
use crate::engine::context::Verdict;
use crate::engine::semantics::decide;
use crate::engine::semantics::rearranged;
use crate::engine::stack::Stack;
use crate::model::TermModel;
use crate::term::add_capped;
use crate::term::capped;
use crate::term::VmTerm;

verus! {

/// Whether the term is an integer scalar that holds the number one.
pub fn is_one(term: &VmTerm) -> (one: bool)
    ensures
        one == term@.is_one(),
{
    match term {
        VmTerm::Unsigned8(val) => *val == 1,
        VmTerm::Unsigned16(val) => *val == 1,
        VmTerm::Unsigned32(val) => *val == 1,
        VmTerm::Unsigned64(val) => *val == 1,
        VmTerm::Unsigned128(val) => *val == 1,
        VmTerm::UnsignedBig(val) => val.is_one(),
        VmTerm::Signed8(val) => *val == 1,
        VmTerm::Signed16(val) => *val == 1,
        VmTerm::Signed32(val) => *val == 1,
        VmTerm::Signed64(val) => *val == 1,
        VmTerm::Signed128(val) => *val == 1,
        VmTerm::SignedBig(val) => val.is_one(),
        _ => false,
    }
}

/// Decides `condition` and takes the terms that this needs off the stack.
pub fn settle(condition: Condition, stack: &mut Stack) -> (res: Result<bool, Verdict>)
    ensures
        match res {
            Ok(holds) => decide(condition, old(stack)@) == Ok::<(bool, Seq<TermModel>), Verdict>(
                (holds, final(stack)@),
            ),
            Err(verdict) => decide(condition, old(stack)@) == Err::<
                (bool, Seq<TermModel>),
                Verdict,
            >(verdict),
        },
{
    match condition {
        Condition::Always => Ok(true),
        Condition::IfTrue => match stack.pop() {
            Some(term) => Ok(is_one(&term)),
            None => Err(Verdict::Fault),
        },
        Condition::IfFalse => match stack.pop() {
            Some(term) => Ok(!is_one(&term)),
            None => Err(Verdict::Fault),
        },
        Condition::IfRelated(relation) => {
            if stack.len() < 2 {
                return Err(Verdict::Fault);
            }
            let right = match stack.pop() {
                Some(term) => term,
                None => {
                    return Err(Verdict::Fault);
                },
            };
            let left = match stack.pop() {
                Some(term) => term,
                None => {
                    return Err(Verdict::Fault);
                },
            };
            assert(stack@ =~= old(stack)@.take(old(stack)@.len() - 2));
            match left.relate(relation, &right) {
                Some(holds) => Ok(holds),
                None => Err(Verdict::Failure),
            }
        },
    }
}

/// Copies the term at `depth` onto the top.
fn copy_to_top(stack: &mut Stack, depth: usize) -> (res: Result<u64, Verdict>)
    ensures
        match res {
            Ok(cost) => depth < old(stack)@.len() && final(stack)@ == old(stack)@.push(
                crate::engine::stack::at_depth(old(stack)@, depth as int),
            ) && cost == capped(
                crate::engine::stack::at_depth(old(stack)@, depth as int).virtual_size(),
            ),
            Err(verdict) => verdict == Verdict::Fault && depth >= old(stack)@.len(),
        },
{
    match stack.copy_at(depth) {
        Some(term) => {
            let cost = term.capped_size();
            stack.push(term);
            Ok(cost)
        },
        None => Err(Verdict::Fault),
    }
}

/// Moves the term at `depth` to the top.
fn move_to_top(stack: &mut Stack, depth: usize) -> (res: Result<u64, Verdict>)
    ensures
        match res {
            Ok(cost) => depth < old(stack)@.len() && final(stack)@
                == crate::engine::stack::without_depth(old(stack)@, depth as int).push(
                crate::engine::stack::at_depth(old(stack)@, depth as int),
            ) && cost == 0,
            Err(verdict) => verdict == Verdict::Fault && depth >= old(stack)@.len(),
        },
{
    match stack.take_at(depth) {
        Some(term) => {
            stack.push(term);
            Ok(0)
        },
        None => Err(Verdict::Fault),
    }
}

/// Copies the pair of terms at `depth` and the one above it onto the top.
fn copy_pair_to_top(stack: &mut Stack, depth: usize) -> (res: Result<u64, Verdict>)
    requires
        depth >= 1,
    ensures
        match res {
            Ok(cost) => depth < old(stack)@.len() && final(stack)@ == old(stack)@.push(
                crate::engine::stack::at_depth(old(stack)@, depth as int),
            ).push(crate::engine::stack::at_depth(old(stack)@, depth - 1)) && cost == capped(
                crate::engine::stack::at_depth(old(stack)@, depth as int).virtual_size()
                    + crate::engine::stack::at_depth(old(stack)@, depth - 1).virtual_size(),
            ),
            Err(verdict) => verdict == Verdict::Fault && depth >= old(stack)@.len(),
        },
{
    let ghost first = crate::engine::stack::at_depth(old(stack)@, depth as int);
    let ghost second = crate::engine::stack::at_depth(old(stack)@, depth - 1);
    let lower = match copy_to_top(stack, depth) {
        Ok(cost) => cost,
        Err(verdict) => {
            return Err(verdict);
        },
    };
    let upper = match copy_to_top(stack, depth) {
        Ok(cost) => cost,
        Err(verdict) => {
            return Err(verdict);
        },
    };
    Ok(add_capped(lower, upper, Ghost(first.virtual_size()), Ghost(second.virtual_size())))
}

/// Moves the pair of terms at `depth` and the one above it to the top.
fn move_pair_to_top(stack: &mut Stack, depth: usize) -> (res: Result<u64, Verdict>)
    requires
        depth >= 1,
    ensures
        match res {
            Ok(cost) => depth < old(stack)@.len() && final(stack)@
                == crate::engine::stack::without_depth(
                crate::engine::stack::without_depth(old(stack)@, depth as int),
                depth - 1,
            ).push(crate::engine::stack::at_depth(old(stack)@, depth as int)).push(
                crate::engine::stack::at_depth(old(stack)@, depth - 1),
            ) && cost == 0,
            Err(verdict) => verdict == Verdict::Fault && depth >= old(stack)@.len(),
        },
{
    let lower = match stack.take_at(depth) {
        Some(term) => term,
        None => {
            return Err(Verdict::Fault);
        },
    };
    let upper = match stack.take_at(depth - 1) {
        Some(term) => term,
        None => {
            return Err(Verdict::Fault);
        },
    };
    stack.push(lower);
    stack.push(upper);
    Ok(0)
}

/// Takes an index off the top of the stack. What comes back is the index where it is below
/// `bound`.
pub(crate) fn pop_index(stack: &mut Stack, bound: usize) -> (res: Result<Option<usize>, Verdict>)
    ensures
        match res {
            Ok(found) => old(stack)@.len() >= 1 && final(stack)@ == old(stack)@.drop_last()
                && crate::engine::semantics::index_of(old(stack)@.last()) is Some && match found {
                Some(index) => index < bound && crate::engine::semantics::index_of(
                    old(stack)@.last(),
                ) == Some(index as nat),
                None => crate::engine::semantics::index_of(old(stack)@.last())->Some_0 >= bound,
            },
            Err(verdict) => if old(stack)@.len() < 1 {
                verdict == Verdict::Fault
            } else {
                verdict == Verdict::Failure && crate::engine::semantics::index_of(
                    old(stack)@.last(),
                ) is None
            },
        },
{
    match stack.pop() {
        None => Err(Verdict::Fault),
        Some(term) => match term.as_index() {
            Some(index) => if index < bound as u128 {
                Ok(Some(index as usize))
            } else {
                Ok(None)
            },
            None => Err(Verdict::Failure),
        },
    }
}

/// Takes a depth off the top of the stack. A depth that the rest of the stack does not
/// have is a fault.
fn pop_depth(stack: &mut Stack) -> (res: Result<usize, Verdict>)
    ensures
        match res {
            Ok(depth) => old(stack)@.len() >= 1 && final(stack)@ == old(stack)@.drop_last()
                && depth < final(stack)@.len() && crate::engine::semantics::index_of(
                old(stack)@.last(),
            ) == Some(depth as nat),
            Err(verdict) => if old(stack)@.len() < 1 {
                verdict == Verdict::Fault
            } else {
                match crate::engine::semantics::index_of(old(stack)@.last()) {
                    None => verdict == Verdict::Failure,
                    Some(depth) => verdict == Verdict::Fault && depth >= old(stack)@.len() - 1,
                }
            },
        },
{
    if stack.len() == 0 {
        return Err(Verdict::Fault);
    }
    let below = stack.len() - 1;
    match pop_index(stack, below) {
        Err(verdict) => Err(verdict),
        Ok(Some(depth)) => Ok(depth),
        Ok(None) => Err(Verdict::Fault),
    }
}

/// Rearranges the stack as `op` says. What comes back is the cost of the copies.
pub fn rearrange(op: StackOp, stack: &mut Stack) -> (res: Result<u64, Verdict>)
    ensures
        match res {
            Ok(cost) => rearranged(op, old(stack)@) matches Ok((after, exact))
                && after == final(stack)@ && cost == capped(exact),
            Err(verdict) => rearranged(op, old(stack)@) == Err::<(Seq<TermModel>, nat), Verdict>(
                verdict,
            ),
        },
{
    match op {
        StackOp::Depth => {
            let depth = stack.len() as u64;
            stack.push(VmTerm::Unsigned64(depth));
            Ok(8)
        },
        StackOp::Drop => match stack.pop() {
            Some(_) => Ok(0),
            None => Err(Verdict::Fault),
        },
        StackOp::Drop2 => {
            if stack.len() < 2 {
                return Err(Verdict::Fault);
            }
            stack.pop();
            stack.pop();
            assert(stack@ =~= old(stack)@.take(old(stack)@.len() - 2));
            Ok(0)
        },
        StackOp::Dup => copy_to_top(stack, 0),
        StackOp::Dup2 => copy_pair_to_top(stack, 1),
        StackOp::Dup3 => {
            let ghost a = crate::engine::stack::at_depth(old(stack)@, 2);
            let ghost b = crate::engine::stack::at_depth(old(stack)@, 1);
            let ghost c = crate::engine::stack::at_depth(old(stack)@, 0);
            let first = match copy_to_top(stack, 2) {
                Ok(cost) => cost,
                Err(verdict) => {
                    return Err(verdict);
                },
            };
            let rest = match copy_pair_to_top(stack, 2) {
                Ok(cost) => cost,
                Err(verdict) => {
                    return Err(verdict);
                },
            };
            Ok(
                add_capped(
                    first,
                    rest,
                    Ghost(a.virtual_size()),
                    Ghost(b.virtual_size() + c.virtual_size()),
                ),
            )
        },
        StackOp::IfDup => match stack.copy_at(0) {
            None => Err(Verdict::Fault),
            Some(term) => if is_one(&term) {
                let cost = term.capped_size();
                stack.push(term);
                Ok(cost)
            } else {
                Ok(0)
            },
        },
        StackOp::Nip => match stack.take_at(1) {
            Some(_) => Ok(0),
            None => Err(Verdict::Fault),
        },
        StackOp::Over => copy_to_top(stack, 1),
        StackOp::Over2 => copy_pair_to_top(stack, 3),
        StackOp::Rot => move_to_top(stack, 2),
        StackOp::Rot2 => move_pair_to_top(stack, 5),
        StackOp::Swap => move_to_top(stack, 1),
        StackOp::Swap2 => move_pair_to_top(stack, 3),
        StackOp::Tuck => {
            if stack.len() < 2 {
                return Err(Verdict::Fault);
            }
            match stack.copy_at(0) {
                None => Err(Verdict::Fault),
                Some(term) => {
                    let cost = term.capped_size();
                    stack.put_at(2, term);
                    Ok(cost)
                },
            }
        },
        StackOp::Pick => match pop_depth(stack) {
            Err(verdict) => Err(verdict),
            Ok(depth) => copy_to_top(stack, depth),
        },
        StackOp::Roll => match pop_depth(stack) {
            Err(verdict) => Err(verdict),
            Ok(depth) => move_to_top(stack, depth),
        },
        StackOp::ClearStack => {
            *stack = Stack::new();
            Ok(0)
        },
    }
}

} // verus!
