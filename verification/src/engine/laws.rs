//! What holds of every run.

use vstd::prelude::*;
use crate::engine::context::ContextModel;
use crate::engine::context::OutcomeModel;
use crate::engine::context::OutputModel;
use crate::engine::context::Verdict;
use crate::engine::program::lemma_parse_instruction_used;
use crate::engine::program::parse_instruction;
use crate::engine::program::parse_script;
use crate::engine::program::ProgramModel;
use crate::engine::semantics::evaluate;
use crate::engine::semantics::run_from;
use crate::engine::semantics::step;
use crate::engine::semantics::MachineModel;
use crate::model::TermModel;
use crate::opcodes::OP;

verus! {

/// Determinism: two runs of one script on the same terms, in the same context and under
/// the same limit have the same verdict and the same outputs.
pub proof fn lemma_deterministic(
    script: Seq<u8>,
    arguments: Seq<TermModel>,
    context: ContextModel,
    limit: nat,
    first: OutcomeModel,
    second: OutcomeModel,
)
    requires
        first == evaluate(script, arguments, context, limit),
        second == evaluate(script, arguments, context, limit),
    ensures
        first.verdict == second.verdict,
        first.outputs == second.outputs,
{
}

/// Whether an instruction starts at the byte `at` of `script`, where one starts at `from`:
/// the instructions from `from` on can be read, and one of them ends just before `at`.
pub open spec fn starts_instruction(script: Seq<u8>, from: nat, at: nat) -> bool
    decreases script.len() - from,
{
    if from == at {
        true
    } else if from > at || from >= script.len() {
        false
    } else {
        match parse_instruction(script.skip(from as int)) {
            Some((_, _, used)) => {
                proof {
                    lemma_parse_instruction_used(script.skip(from as int));
                }
                starts_instruction(script, from + used, at)
            },
            None => false,
        }
    }
}

/// A script that has a byte which is no instruction where an instruction starts cannot be
/// read from `from` on.
proof fn lemma_unknown_opcode_unreadable(script: Seq<u8>, from: nat, at: nat)
    requires
        at < script.len(),
        starts_instruction(script, from, at),
        OP::of_code(script[at as int]) is None,
    ensures
        parse_script(script.skip(from as int)) is None,
    decreases script.len() - from,
{
    let rest = script.skip(from as int);
    if from == at {
        reveal(parse_instruction);
        assert(rest[0] == script[at as int]);
    } else {
        lemma_parse_instruction_used(rest);
        let used = parse_instruction(rest)->Some_0.2;
        lemma_unknown_opcode_unreadable(script, from + used, at);
        assert(rest.skip(used as int) =~= script.skip((from + used) as int));
    }
}

/// Fault containment: a script with a byte that is no instruction where an instruction
/// starts ends in a fault and has no outputs, whatever terms are on the stack, whatever the
/// context and whatever the limit.
pub proof fn lemma_unknown_opcode_faults(
    script: Seq<u8>,
    at: nat,
    arguments: Seq<TermModel>,
    context: ContextModel,
    limit: nat,
)
    requires
        at < script.len(),
        starts_instruction(script, 0, at),
        OP::of_code(script[at as int]) is None,
    ensures
        evaluate(script, arguments, context, limit) == (OutcomeModel {
            verdict: Verdict::Fault,
            outputs: Seq::empty(),
        }),
{
    lemma_unknown_opcode_unreadable(script, 0, at);
    assert(script.skip(0) =~= script);
}

/// Only a successful run has outputs.
pub proof fn lemma_outputs_need_success(
    program: ProgramModel,
    context: ContextModel,
    limit: nat,
    machine: MachineModel,
)
    ensures
        !(run_from(program, context, limit, machine).verdict is Success) ==> run_from(
            program,
            context,
            limit,
            machine,
        ).outputs == Seq::<OutputModel>::empty(),
    decreases limit - machine.meter,
{
    if machine.ip < program.ops.len() {
        if let Ok(after) = step(program, context, limit, machine) {
            lemma_outputs_need_success(program, context, limit, after);
        }
    }
}

/// The number of instructions that run from the state `machine` on.
pub open spec fn instructions_run(
    program: ProgramModel,
    context: ContextModel,
    limit: nat,
    machine: MachineModel,
) -> nat
    decreases limit - machine.meter,
{
    if machine.ip >= program.ops.len() {
        0
    } else {
        match step(program, context, limit, machine) {
            Err(_) => 1,
            Ok(after) => 1 + instructions_run(program, context, limit, after),
        }
    }
}

/// Bounded execution: whatever the script, the run ends, and no more instructions run than
/// the limit leaves room for, and one. A loop that nothing leaves runs until its cost
/// passes the limit, and the script fails.
pub proof fn lemma_bounded(
    program: ProgramModel,
    context: ContextModel,
    limit: nat,
    machine: MachineModel,
)
    requires
        machine.meter <= limit,
    ensures
        instructions_run(program, context, limit, machine) <= limit - machine.meter + 1,
    decreases limit - machine.meter,
{
    if machine.ip < program.ops.len() {
        if let Ok(after) = step(program, context, limit, machine) {
            lemma_bounded(program, context, limit, after);
        }
    }
}

/// An instruction whose cost would take the run past the limit fails the script.
pub proof fn lemma_limit_holds(
    program: ProgramModel,
    context: ContextModel,
    limit: nat,
    machine: MachineModel,
)
    ensures
        step(program, context, limit, machine) matches Ok(after) ==> machine.meter < after.meter
            <= limit,
        machine.meter >= limit ==> step(program, context, limit, machine) is Err,
{
}

} // verus!
