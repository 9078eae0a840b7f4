//! The machine: its state, one step, and the run of a script.

use vstd::prelude::*;
use crate::engine::action::classify;
use crate::engine::action::Action;
use crate::engine::action::Condition;
use crate::engine::action::ContextField;
use crate::engine::action::OutputKind;
use crate::engine::action::PartOp;
use crate::engine::action::StageOp;
use crate::engine::action::TextOp;
use crate::engine::bitwise::BitOp;
use crate::engine::context::output_models;
use crate::engine::context::term_models;
use crate::engine::context::ExecutionContext;
use crate::engine::context::Outcome;
use crate::engine::context::Output;
use crate::engine::context::OutputModel;
use crate::engine::context::Verdict;
use crate::engine::moves::is_one;
use crate::engine::moves::pop_index;
use crate::engine::moves::rearrange;
use crate::engine::moves::settle;
use crate::engine::program::Program;
use crate::engine::random::draw;
use crate::engine::semantics::all_terms;
use crate::engine::semantics::any_coloured;
use crate::engine::semantics::calculated;
use crate::engine::semantics::directed;
use crate::engine::semantics::emitted;
use crate::engine::semantics::context_term;
use crate::engine::semantics::effect;
use crate::engine::semantics::evaluate;
use crate::engine::semantics::initial;
use crate::engine::semantics::output_of;
use crate::engine::semantics::run_from;
use crate::engine::semantics::sizes;
use crate::engine::semantics::staged_change;
use crate::engine::semantics::step;
use crate::engine::semantics::taken;
use crate::engine::semantics::transformed;
use crate::engine::semantics::transformed_term;
use crate::engine::semantics::Change;
use crate::engine::semantics::MachineModel;
use crate::engine::stack::at_depth;
use crate::engine::stack::Stack;
use crate::engine::values::boolean_term;
use crate::model::Arith;
use crate::model::TermModel;
use crate::term::add_capped;
use crate::term::capped;
use crate::term::lemma_array_len_bounded;
use crate::term::VmTerm;

verus! {

/// The state of the machine.
#[derive(Debug)]
pub struct Machine {
    pub stack: Stack,
    pub staged: Vec<VmTerm>,
    pub outputs: Vec<Output>,
    pub ip: usize,
    pub meter: u64,
    pub executed: u64,
}

impl View for Machine {
    type V = MachineModel;

    open spec fn view(&self) -> MachineModel {
        MachineModel {
            stack: self.stack@,
            staged: term_models(self.staged@),
            outputs: output_models(self.outputs@),
            ip: self.ip as nat,
            meter: self.meter as nat,
            executed: self.executed as nat,
        }
    }
}

/// Whether the stack, the staged terms and the outputs of `machine` are those of `change`,
/// and `next` and `cost` its next instruction and its cost, capped.
pub open spec fn carries_out(machine: MachineModel, next: usize, cost: u64, change: Change) -> bool {
    &&& machine.stack == change.stack
    &&& machine.staged == change.staged
    &&& machine.outputs == change.outputs
    &&& next == change.next
    &&& cost == capped(change.cost)
}

/// The sizes of a sequence with one more term are those of the sequence and that of the
/// term.
proof fn lemma_sizes_push(terms: Seq<TermModel>, term: TermModel)
    ensures
        sizes(terms.push(term)) == sizes(terms) + term.virtual_size(),
{
    assert(terms.push(term).drop_last() =~= terms);
}

/// The sizes of two sequences, one after the other, are the sizes of both.
proof fn lemma_sizes_concat(front: Seq<TermModel>, back: Seq<TermModel>)
    ensures
        sizes(front + back) == sizes(front) + sizes(back),
    decreases back.len(),
{
    if back.len() == 0 {
        assert(front + back =~= front);
    } else {
        lemma_sizes_concat(front, back.drop_last());
        assert((front + back).drop_last() =~= front + back.drop_last());
    }
}

/// An instruction that changes the form of terms reads only the terms that it takes.
proof fn lemma_transformed_term_reads(
    action: Action,
    terms: Seq<TermModel>,
    stack: Seq<TermModel>,
)
    requires
        terms.len() == 3,
        stack.len() >= taken(action),
        forall|depth: int| 0 <= depth < taken(action) ==> at_depth(terms, depth) == at_depth(
            stack,
            depth,
        ),
    ensures
        transformed_term(action, terms) == transformed_term(action, stack),
{
    reveal(transformed_term);
    assert(at_depth(terms, 0) == at_depth(stack, 0));
    if taken(action) >= 2 {
        assert(at_depth(terms, 1) == at_depth(stack, 1));
    }
    if taken(action) >= 3 {
        assert(at_depth(terms, 2) == at_depth(stack, 2));
    }
}

/// Whether one of `outputs` is coloured.
fn has_coloured(outputs: &Vec<Output>) -> (found: bool)
    ensures
        found == any_coloured(output_models(outputs@)),
{
    let mut i: usize = 0;
    while i < outputs.len()
        invariant
            i <= outputs.len(),
            forall|j: int| 0 <= j < i ==> !(#[trigger] output_models(outputs@)[j]).coloured,
        decreases outputs.len() - i,
    {
        if outputs[i].coloured {
            assert(output_models(outputs@)[i as int].coloured);
            return true;
        }
        i += 1;
    }
    false
}

/// Copies `terms` onto the stack, first term first. What comes back is their cost.
fn push_copies(stack: &mut Stack, terms: &Vec<VmTerm>) -> (cost: u64)
    ensures
        final(stack)@ == old(stack)@ + term_models(terms@),
        cost == capped(sizes(term_models(terms@))),
{
    let ghost models = term_models(terms@);
    let mut cost: u64 = 0;
    let mut i: usize = 0;
    assert(old(stack)@ + models.take(0) =~= old(stack)@);
    while i < terms.len()
        invariant
            i <= terms.len(),
            models == term_models(terms@),
            stack@ == old(stack)@ + models.take(i as int),
            cost == capped(sizes(models.take(i as int))),
        decreases terms.len() - i,
    {
        let term = terms[i].clone();
        proof {
            assert(models.take(i + 1) =~= models.take(i as int).push(models[i as int]));
            lemma_sizes_push(models.take(i as int), models[i as int]);
            assert(old(stack)@ + models.take(i + 1) =~= (old(stack)@ + models.take(i as int)).push(
                models[i as int],
            ));
        }
        cost = add_capped(
            cost,
            term.capped_size(),
            Ghost(sizes(models.take(i as int))),
            Ghost(models[i as int].virtual_size()),
        );
        stack.push(term);
        i += 1;
    }
    assert(models.take(i as int) =~= models);
    cost
}

/// Copies the terms of every output onto the stack, first output first. What comes back is
/// their cost.
fn push_all_copies(stack: &mut Stack, outputs: &Vec<Output>) -> (cost: u64)
    ensures
        final(stack)@ == old(stack)@ + all_terms(output_models(outputs@)),
        cost == capped(sizes(all_terms(output_models(outputs@)))),
{
    let ghost models = output_models(outputs@);
    let mut cost: u64 = 0;
    let mut i: usize = 0;
    assert(old(stack)@ + all_terms(models.take(0)) =~= old(stack)@);
    while i < outputs.len()
        invariant
            i <= outputs.len(),
            models == output_models(outputs@),
            stack@ == old(stack)@ + all_terms(models.take(i as int)),
            cost == capped(sizes(all_terms(models.take(i as int)))),
        decreases outputs.len() - i,
    {
        let ghost before = all_terms(models.take(i as int));
        let ghost added = models[i as int].terms;
        proof {
            assert(models.take(i + 1).drop_last() =~= models.take(i as int));
            assert(all_terms(models.take(i + 1)) == before + added);
            lemma_sizes_concat(before, added);
            assert(old(stack)@ + (before + added) =~= (old(stack)@ + before) + added);
        }
        let more = push_copies(stack, &outputs[i].terms);
        cost = add_capped(cost, more, Ghost(sizes(before)), Ghost(sizes(added)));
        i += 1;
    }
    assert(models.take(i as int) =~= models);
    cost
}

impl Machine {
    /// The machine before the first instruction, with `arguments` on the stack.
    pub fn new(arguments: Vec<VmTerm>) -> (machine: Machine)
        ensures
            machine@ == initial(term_models(arguments@)),
    {
        let machine = Machine {
            stack: Stack { items: arguments },
            staged: Vec::new(),
            outputs: Vec::new(),
            ip: 0,
            meter: 0,
            executed: 0,
        };
        assert(machine@.staged =~= Seq::<TermModel>::empty());
        assert(machine@.outputs =~= Seq::<OutputModel>::empty());
        machine
    }

    /// The term that an instruction which reads `field` puts on the stack.
    fn context_value(&self, field: ContextField, context: &ExecutionContext) -> (term: VmTerm)
        ensures
            term@ == context_term(field, context@, self@),
    {
        match field {
            ContextField::ChainId => VmTerm::Unsigned8(context.chain_id),
            ContextField::ChainHeight => VmTerm::Unsigned64(context.height),
            ContextField::ChainTimestamp => VmTerm::Signed64(context.timestamp),
            ContextField::IsCoinbase => boolean_term(context.is_coinbase),
            ContextField::PrevBlockHash => VmTerm::Hash256(context.prev_block_hash),
            ContextField::NSequence => VmTerm::Unsigned32(context.sequence),
            ContextField::PrevOutputsLen => VmTerm::Unsigned64(context.prev_outputs.len() as u64),
            ContextField::ExecCount => VmTerm::Unsigned64(self.executed),
            ContextField::HasInput => boolean_term(context.prev_outputs.len() > 0),
            ContextField::HasOutput => boolean_term(self.outputs.len() > 0),
            ContextField::HasColouredInput => boolean_term(has_coloured(&context.prev_outputs)),
            ContextField::HasColouredOutput => boolean_term(has_coloured(&self.outputs)),
        }
    }

    /// Moves terms to the staged terms, or copies terms of the outputs that are spent onto
    /// the stack, as `op` says. What comes back is the cost of the copies.
    fn stage(&mut self, op: StageOp, context: &ExecutionContext) -> (res: Result<u64, Verdict>)
        requires
            old(self).ip < usize::MAX,
        ensures
            match res {
                Ok(cost) => staged_change(op, context@, old(self)@) matches Ok(change)
                    && carries_out(final(self)@, (old(self).ip + 1) as usize, cost, change),
                Err(verdict) => staged_change(op, context@, old(self)@) == Err::<Change, Verdict>(
                    verdict,
                ),
            },
            final(self).ip == old(self).ip,
            final(self).meter == old(self).meter,
            final(self).executed == old(self).executed,
    {
        match op {
            StageOp::PopToScriptOuts => match self.stack.pop() {
                None => Err(Verdict::Fault),
                Some(term) => {
                    self.staged.push(term);
                    assert(term_models(self.staged@) =~= term_models(old(self).staged@).push(
                        term@,
                    ));
                    Ok(0)
                },
            },
            StageOp::PickToScriptOuts => {
                if self.stack.len() == 0 {
                    return Err(Verdict::Fault);
                }
                let below = self.stack.len() - 1;
                match pop_index(&mut self.stack, below) {
                    Err(verdict) => Err(verdict),
                    Ok(None) => Err(Verdict::Fault),
                    Ok(Some(depth)) => match self.stack.copy_at(depth) {
                        None => Err(Verdict::Fault),
                        Some(term) => {
                            let cost = term.capped_size();
                            self.staged.push(term);
                            assert(term_models(self.staged@) =~= term_models(
                                old(self).staged@,
                            ).push(term@));
                            Ok(cost)
                        },
                    },
                }
            },
            StageOp::FlushToScriptOuts => {
                self.staged.append(&mut self.stack.items);
                assert(term_models(self.staged@) =~= term_models(old(self).staged@)
                    + old(self).stack@);
                assert(self.stack@ =~= Seq::<TermModel>::empty());
                Ok(0)
            },
            StageOp::PushPrevScriptOuts => Ok(push_all_copies(&mut self.stack, &context.prev_outputs)),
            StageOp::PushPrevScriptOut => match pop_index(
                &mut self.stack,
                context.prev_outputs.len(),
            ) {
                Err(verdict) => Err(verdict),
                Ok(None) => Err(Verdict::Failure),
                Ok(Some(index)) => Ok(
                    push_copies(&mut self.stack, &context.prev_outputs[index].terms),
                ),
            },
        }
    }

    /// Makes an output of the staged terms.
    fn push_out(&mut self, kind: OutputKind)
        ensures
            final(self)@.outputs == old(self)@.outputs.push(output_of(kind, old(self)@.staged)),
            final(self)@.staged == Seq::<TermModel>::empty(),
            final(self).stack == old(self).stack,
            final(self).ip == old(self).ip,
            final(self).meter == old(self).meter,
            final(self).executed == old(self).executed,
    {
        let mut terms: Vec<VmTerm> = Vec::new();
        terms.append(&mut self.staged);
        let output = Output {
            terms,
            coloured: match kind {
                OutputKind::ColouredCoinbase => true,
                _ => false,
            },
            coinbase: match kind {
                OutputKind::Plain => false,
                _ => true,
            },
        };
        assert(output@.terms =~= old(self)@.staged);
        self.outputs.push(output);
        assert(self@.outputs =~= old(self)@.outputs.push(output_of(kind, old(self)@.staged)));
        assert(self@.staged =~= Seq::<TermModel>::empty());
    }

    /// Takes the two top terms off the stack: the lower of them, then the upper.
    fn take_two(stack: &mut Stack) -> (res: Option<(VmTerm, VmTerm)>)
        ensures
            match res {
                Some((left, right)) => old(stack)@.len() >= 2 && left@ == at_depth(old(stack)@, 1)
                    && right@ == at_depth(old(stack)@, 0) && final(stack)@ == old(stack)@.take(
                    old(stack)@.len() - 2,
                ),
                None => old(stack)@.len() < 2,
            },
    {
        if stack.len() < 2 {
            return None;
        }
        let right = match stack.pop() {
            Some(term) => term,
            None => {
                return None;
            },
        };
        let left = match stack.pop() {
            Some(term) => term,
            None => {
                return None;
            },
        };
        assert(stack@ =~= old(stack)@.take(old(stack)@.len() - 2));
        Some((left, right))
    }

    /// Takes an upper bound, a lower bound and a number off the stack and puts the number
    /// on again, moved into the bounds.
    fn clamp(stack: &mut Stack) -> (res: Result<u64, Verdict>)
        ensures
            match res {
                Ok(cost) => calculated(Action::Within, old(stack)@) matches Ok((after, exact))
                    && after == final(stack)@ && cost == capped(exact),
                Err(verdict) => calculated(Action::Within, old(stack)@) == Err::<
                    (Seq<TermModel>, nat),
                    Verdict,
                >(verdict),
            },
    {
        if stack.len() < 3 {
            return Err(Verdict::Fault);
        }
        let (low, high) = match Self::take_two(stack) {
            Some(pair) => pair,
            None => {
                return Err(Verdict::Fault);
            },
        };
        let term = match stack.pop() {
            Some(term) => term,
            None => {
                return Err(Verdict::Fault);
            },
        };
        assert(stack@ =~= old(stack)@.take(old(stack)@.len() - 3));
        match high.below(&low) {
            Some(false) => match term.combine(Arith::Min, &high) {
                None => Err(Verdict::Failure),
                Some(capped_term) => match capped_term.combine(Arith::Max, &low) {
                    None => Err(Verdict::Failure),
                    Some(result) => {
                        let cost = result.capped_size();
                        stack.push(result);
                        Ok(cost)
                    },
                },
            },
            _ => Err(Verdict::Failure),
        }
    }

    /// Carries out an instruction that calculates or compares. What comes back is the cost
    /// of the term that it made.
    fn calculate(action: Action, stack: &mut Stack) -> (res: Result<u64, Verdict>)
        ensures
            match res {
                Ok(cost) => calculated(action, old(stack)@) matches Ok((after, exact)) && after
                    == final(stack)@ && cost == capped(exact),
                Err(verdict) => calculated(action, old(stack)@) == Err::<
                    (Seq<TermModel>, nat),
                    Verdict,
                >(verdict),
            },
    {
        match action {
            Action::Unary(op) => match stack.pop() {
                None => Err(Verdict::Fault),
                Some(term) => match term.apply(op) {
                    None => Err(Verdict::Failure),
                    Some(result) => {
                        let cost = result.capped_size();
                        stack.push(result);
                        Ok(cost)
                    },
                },
            },
            Action::Binary(op) => match Self::take_two(stack) {
                None => Err(Verdict::Fault),
                Some((left, right)) => match left.combine(op, &right) {
                    None => Err(Verdict::Failure),
                    Some(result) => {
                        let cost = result.capped_size();
                        stack.push(result);
                        Ok(cost)
                    },
                },
            },
            Action::BoolAnd => match Self::take_two(stack) {
                None => Err(Verdict::Fault),
                Some((left, right)) => {
                    stack.push(boolean_term(is_one(&left) && is_one(&right)));
                    Ok(1)
                },
            },
            Action::BoolOr => match Self::take_two(stack) {
                None => Err(Verdict::Fault),
                Some((left, right)) => {
                    stack.push(boolean_term(is_one(&left) || is_one(&right)));
                    Ok(1)
                },
            },
            Action::Within => Self::clamp(stack),
            Action::Compare(relation) => match settle(Condition::IfRelated(relation), stack) {
                Err(verdict) => Err(verdict),
                Ok(holds) => {
                    stack.push(boolean_term(holds));
                    Ok(1)
                },
            },
            _ => Ok(0),
        }
    }

    /// The index that `term` names, where a machine word holds it: no array has more
    /// elements and no integer of fixed width more bits.
    fn small_index(term: &VmTerm) -> (res: Option<usize>)
        ensures
            match res {
                Some(index) => crate::engine::semantics::index_of(term@) == Some(index as nat),
                None => crate::engine::semantics::index_of(term@) matches Some(named) ==> named
                    > usize::MAX,
            },
    {
        match term.as_index() {
            Some(wide) => if wide <= usize::MAX as u128 {
                Some(wide as usize)
            } else {
                None
            },
            None => None,
        }
    }

    /// The term that an instruction which changes the form of terms makes of the terms
    /// `below`, `middle` and `top`, of which it takes the upper ones.
    fn transform_terms(action: Action, below: &VmTerm, middle: &VmTerm, top: &VmTerm) -> (res:
        Option<VmTerm>)
        ensures
            match res {
                Some(result) => transformed_term(action, seq![below@, middle@, top@]) == Some(
                    result@,
                ),
                None => transformed_term(action, seq![below@, middle@, top@]) is None,
            },
    {
        let ghost stack = seq![below@, middle@, top@];
        reveal(transformed_term);
        assert(at_depth(stack, 0) == top@);
        assert(at_depth(stack, 1) == middle@);
        assert(at_depth(stack, 2) == below@);
        proof {
            lemma_array_len_bounded(*middle);
            lemma_array_len_bounded(*below);
        }
        match action {
            Action::Hash(function) => top.hash(function),
            Action::KeyedHash(length) => middle.keyed_hash(length, top),
            Action::Bits(BitOp::Xor) => middle.xor(top),
            Action::Bits(BitOp::Invert) => top.invert(),
            Action::Bits(BitOp::ShiftLeft) => match Self::small_index(top) {
                Some(by) => middle.shift_left(by),
                None => None,
            },
            Action::Bits(BitOp::ShiftRight) => match Self::small_index(top) {
                Some(by) => middle.shift_right(by),
                None => None,
            },
            Action::Text(TextOp::ToHex) => top.to_hex(),
            Action::Text(TextOp::FromHex) => top.from_hex(),
            Action::Text(TextOp::IsUTF8) => match top.is_utf8() {
                Some(valid) => Some(boolean_term(valid)),
                None => None,
            },
            Action::Concat => middle.join(top),
            Action::Part(PartOp::Left) => match Self::small_index(top) {
                Some(count) => middle.part(0, count),
                None => None,
            },
            Action::Part(PartOp::Right) => match (Self::small_index(top), middle.array_len()) {
                (Some(count), Some(len)) => if count <= len {
                    middle.part(len - count, count)
                } else {
                    None
                },
                _ => None,
            },
            Action::Part(PartOp::Substr) => match (
                Self::small_index(middle),
                Self::small_index(top),
            ) {
                (Some(from), Some(count)) => below.part(from, count),
                _ => None,
            },
            Action::Cast => match top.as_cast_target() {
                Some(target) => middle.cast(target),
                None => None,
            },
            _ => None,
        }
    }

    /// Carries out an instruction that changes the form of terms. What comes back is the
    /// cost of the term that it made.
    fn transform(action: Action, stack: &mut Stack) -> (res: Result<u64, Verdict>)
        ensures
            match res {
                Ok(cost) => transformed(action, old(stack)@) matches Ok((after, exact)) && after
                    == final(stack)@ && cost == capped(exact),
                Err(verdict) => transformed(action, old(stack)@) == Err::<
                    (Seq<TermModel>, nat),
                    Verdict,
                >(verdict),
            },
    {
        let count: usize = match action {
            Action::Hash(_) | Action::Bits(BitOp::Invert) | Action::Text(_) => 1,
            Action::Part(PartOp::Substr) => 3,
            _ => 2,
        };
        if stack.len() < count {
            return Err(Verdict::Fault);
        }
        let filler = VmTerm::Unsigned8(0);
        let top = match stack.pop() {
            Some(term) => term,
            None => {
                return Err(Verdict::Fault);
            },
        };
        let middle = if count >= 2 {
            match stack.pop() {
                Some(term) => term,
                None => {
                    return Err(Verdict::Fault);
                },
            }
        } else {
            filler.clone()
        };
        let below = if count >= 3 {
            match stack.pop() {
                Some(term) => term,
                None => {
                    return Err(Verdict::Fault);
                },
            }
        } else {
            filler
        };
        proof {
            let before = old(stack)@;
            let terms = seq![below@, middle@, top@];
            assert(stack@ =~= before.take(before.len() - count));
            assert(at_depth(terms, 0) == at_depth(before, 0));
            assert(count >= 2 ==> at_depth(terms, 1) == at_depth(before, 1));
            assert(count >= 3 ==> at_depth(terms, 2) == at_depth(before, 2));
            lemma_transformed_term_reads(action, terms, before);
        }
        match Self::transform_terms(action, &below, &middle, &top) {
            None => Err(Verdict::Failure),
            Some(result) => {
                let cost = result.capped_size();
                stack.push(result);
                Ok(cost)
            },
        }
    }

    /// Carries out an instruction that directs the run. What comes back is the instruction
    /// that is next.
    fn direct(&mut self, action: Action, program: &Program) -> (res: Result<usize, Verdict>)
        requires
            program.well_formed(),
            old(self).ip < program.ops@.len(),
        ensures
            match res {
                Ok(next) => directed(action, program@, old(self)@) == Ok::<
                    (Seq<TermModel>, nat),
                    Verdict,
                >((final(self).stack@, next as nat)),
                Err(verdict) => directed(action, program@, old(self)@) == Err::<
                    (Seq<TermModel>, nat),
                    Verdict,
                >(verdict),
            },
            res matches Err(Verdict::Success) ==> final(self).stack == old(self).stack,
            final(self).staged == old(self).staged,
            final(self).outputs == old(self).outputs,
            final(self).ip == old(self).ip,
            final(self).meter == old(self).meter,
            final(self).executed == old(self).executed,
    {
        let count = program.ops.len();
        let next = self.ip + 1;
        let target = program.targets[self.ip];
        assert(program@.targets[self.ip as int] == target);
        match action {
            Action::Verify(condition) => match settle(condition, &mut self.stack) {
                Err(verdict) => Err(verdict),
                Ok(holds) => if holds {
                    Ok(next)
                } else {
                    Err(Verdict::Failure)
                },
            },
            Action::If(condition) => match settle(condition, &mut self.stack) {
                Err(verdict) => Err(verdict),
                Ok(holds) => Ok(if holds {
                    next
                } else {
                    target
                }),
            },
            Action::Else | Action::End => Ok(target),
            Action::Break(condition) => match settle(condition, &mut self.stack) {
                Err(verdict) => Err(verdict),
                Ok(holds) => if !holds {
                    Ok(next)
                } else if target >= count {
                    Err(Verdict::Fault)
                } else {
                    let end = program.targets[target];
                    assert(program@.targets[target as int] == end);
                    if end >= count {
                        Err(Verdict::Fault)
                    } else {
                        Ok(end + 1)
                    }
                },
            },
            Action::Continue(condition) => match settle(condition, &mut self.stack) {
                Err(verdict) => Err(verdict),
                Ok(holds) => if !holds {
                    Ok(next)
                } else if target >= count {
                    Err(Verdict::Fault)
                } else {
                    Ok(target + 1)
                },
            },
            Action::Return => Err(Verdict::Success),
            _ => Ok(next),
        }
    }

    /// Carries out an instruction that makes an output.
    fn emit(&mut self, action: Action, context: &ExecutionContext) -> (res: Result<(), Verdict>)
        ensures
            match res {
                Ok(_) => emitted(action, context@, old(self)@) == Ok::<
                    (Seq<TermModel>, Seq<TermModel>, Seq<OutputModel>),
                    Verdict,
                >((final(self)@.stack, final(self)@.staged, final(self)@.outputs)),
                Err(verdict) => emitted(action, context@, old(self)@) == Err::<
                    (Seq<TermModel>, Seq<TermModel>, Seq<OutputModel>),
                    Verdict,
                >(verdict),
            },
            final(self).ip == old(self).ip,
            final(self).meter == old(self).meter,
            final(self).executed == old(self).executed,
    {
        match action {
            Action::PushOut(kind, condition) => match settle(condition, &mut self.stack) {
                Err(verdict) => Err(verdict),
                Ok(holds) => if !holds {
                    Ok(())
                } else {
                    let plain = match kind {
                        OutputKind::Plain => true,
                        _ => false,
                    };
                    if !plain && !context.is_coinbase {
                        Err(Verdict::Failure)
                    } else {
                        self.push_out(kind);
                        Ok(())
                    }
                },
            },
            Action::PushOutVerify => match settle(Condition::IfTrue, &mut self.stack) {
                Err(verdict) => Err(verdict),
                Ok(holds) => if !holds {
                    Err(Verdict::Failure)
                } else {
                    self.push_out(OutputKind::Plain);
                    Ok(())
                },
            },
            _ => Ok(()),
        }
    }

    /// Carries out the instruction that is next, all but its cost. What comes back is the
    /// instruction that is next after it and the cost of what it made.
    fn perform(&mut self, program: &Program, context: &ExecutionContext) -> (res: Result<
        (usize, u64),
        Verdict,
    >)
        requires
            program.well_formed(),
            old(self).ip < program.ops@.len(),
        ensures
            match res {
                Ok((next, cost)) => effect(program@, context@, old(self)@) matches Ok(change)
                    && carries_out(final(self)@, next, cost, change),
                Err(verdict) => effect(program@, context@, old(self)@) == Err::<Change, Verdict>(
                    verdict,
                ),
            },
            res matches Err(Verdict::Success) ==> final(self)@.outputs == old(self)@.outputs,
            final(self).ip == old(self).ip,
            final(self).meter == old(self).meter,
            final(self).executed == old(self).executed,
    {
        let ip = self.ip;
        let count = program.ops.len();
        let next = ip + 1;
        let action = classify(program.ops[ip]);
        match action {
            Action::Literal(_, _) => match &program.operands[ip] {
                Some(term) => {
                    let term = term.clone();
                    let cost = term.capped_size();
                    self.stack.push(term);
                    Ok((next, cost))
                },
                None => Err(Verdict::Fault),
            },
            Action::Context(field) => {
                let term = self.context_value(field, context);
                let cost = term.capped_size();
                self.stack.push(term);
                Ok((next, cost))
            },
            Action::Random(kind) => match draw(kind, context, self.executed) {
                None => Err(Verdict::Failure),
                Some(term) => {
                    let cost = term.capped_size();
                    self.stack.push(term);
                    Ok((next, cost))
                },
            },
            Action::Stack(op) => match rearrange(op, &mut self.stack) {
                Ok(cost) => Ok((next, cost)),
                Err(verdict) => Err(verdict),
            },
            Action::Unary(_)
            | Action::Binary(_)
            | Action::BoolAnd
            | Action::BoolOr
            | Action::Within
            | Action::Compare(_) => match Self::calculate(action, &mut self.stack) {
                Ok(cost) => Ok((next, cost)),
                Err(verdict) => Err(verdict),
            },
            Action::Hash(_)
            | Action::KeyedHash(_)
            | Action::Bits(_)
            | Action::Text(_)
            | Action::Concat
            | Action::Part(_)
            | Action::Cast => match Self::transform(action, &mut self.stack) {
                Ok(cost) => Ok((next, cost)),
                Err(verdict) => Err(verdict),
            },
            Action::Nop
            | Action::Loop
            | Action::Verify(_)
            | Action::If(_)
            | Action::Else
            | Action::End
            | Action::Break(_)
            | Action::Continue(_)
            | Action::Return => match self.direct(action, program) {
                Ok(next) => Ok((next, 0)),
                Err(verdict) => Err(verdict),
            },
            Action::Stage(op) => match self.stage(op, context) {
                Ok(cost) => Ok((next, cost)),
                Err(verdict) => Err(verdict),
            },
            Action::PushOut(_, _) | Action::PushOutVerify => match self.emit(action, context) {
                Ok(_) => Ok((next, 0)),
                Err(verdict) => Err(verdict),
            },
            Action::Unsupported => Err(Verdict::Failure),
        }
    }

    /// Runs the instruction that is next. What comes back is the verdict that the
    /// instruction ends the run with, if it does.
    pub fn step(&mut self, program: &Program, context: &ExecutionContext, limit: u64) -> (halt:
        Option<Verdict>)
        requires
            program.well_formed(),
            old(self).ip < program.ops@.len(),
            old(self).executed <= old(self).meter <= limit,
        ensures
            match halt {
                None => step(program@, context@, limit as nat, old(self)@) == Ok::<
                    MachineModel,
                    Verdict,
                >(final(self)@),
                Some(verdict) => step(program@, context@, limit as nat, old(self)@) == Err::<
                    MachineModel,
                    Verdict,
                >(verdict),
            },
            halt is None ==> final(self).executed <= final(self).meter <= limit
                && old(self).meter < final(self).meter,
            halt == Some(Verdict::Success) ==> final(self)@.outputs == old(self)@.outputs,
    {
        match self.perform(program, context) {
            Err(verdict) => {
                Some(verdict)
            },
            Ok((next, cost)) => {
                let total: u128 = self.meter as u128 + 1 + cost as u128;
                if total > limit as u128 {
                    Some(Verdict::Failure)
                } else {
                    self.ip = next;
                    self.meter = total as u64;
                    self.executed = self.executed + 1;
                    None
                }
            },
        }
    }

    /// The outcome of a run that ends now with `verdict`.
    fn finish(self, verdict: Verdict) -> (outcome: Outcome)
        ensures
            outcome@ == crate::engine::semantics::outcome_of(verdict, self@),
    {
        match verdict {
            Verdict::Success => Outcome { verdict, outputs: self.outputs },
            _ => {
                let outcome = Outcome { verdict, outputs: Vec::new() };
                assert(outcome@.outputs =~= Seq::<OutputModel>::empty());
                outcome
            },
        }
    }
}

/// Runs `script` on the terms `arguments`, which start on the stack, in `context` and under
/// the cost limit `limit`.
///
/// A script that is not well formed faults before any instruction runs. Else the
/// instructions run one after the other until one ends the run or the script is at its end.
/// The outcome is a function of the four inputs and of nothing else: the same script on the
/// same terms in the same context under the same limit has the same verdict and the same
/// outputs, every time and on every machine.
pub fn run(script: &[u8], arguments: Vec<VmTerm>, context: &ExecutionContext, limit: u64) -> (outcome:
    Outcome)
    ensures
        outcome@ == evaluate(script@, term_models(arguments@), context@, limit as nat),
{
    let program = match Program::compile(script) {
        Some(program) => program,
        None => {
            let outcome = Outcome { verdict: Verdict::Fault, outputs: Vec::new() };
            assert(outcome@.outputs =~= Seq::<OutputModel>::empty());
            return outcome;
        },
    };
    let mut machine = Machine::new(arguments);
    loop
        invariant
            program.well_formed(),
            machine.executed <= machine.meter <= limit,
            evaluate(script@, term_models(arguments@), context@, limit as nat) == run_from(
                program@,
                context@,
                limit as nat,
                machine@,
            ),
        decreases limit - machine.meter,
    {
        if machine.ip >= program.ops.len() {
            return machine.finish(Verdict::Success);
        }
        let ghost before = machine@;
        match machine.step(&program, context, limit) {
            Some(verdict) => {
                let outcome = machine.finish(verdict);
                assert(outcome@ == crate::engine::semantics::outcome_of(verdict, before));
                return outcome;
            },
            None => {},
        }
    }
}

} // verus!
