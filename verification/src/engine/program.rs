//! A script, read into instructions and checked before it runs: every byte is an
//! instruction or part of an operand, and the control blocks match.

use vstd::prelude::*;
use vstd::slice::slice_subrange;
use crate::codec::Decode;
use crate::decoding::lemma_parse_array_used;
use crate::decoding::lemma_parse_payload_used;
use crate::decoding::parse_term;
use crate::engine::action::action_of;
use crate::engine::action::classify;
use crate::engine::action::Action;
use crate::model::TermModel;
use crate::opcodes::OP;
use crate::term::VmTerm;

verus! {

/// The model of an operand.
pub open spec fn operand_model(operand: Option<VmTerm>) -> Option<TermModel> {
    match operand {
        Some(term) => Some(term@),
        None => None,
    }
}

/// The models of a sequence of operands.
pub open spec fn operand_models(operands: Seq<Option<VmTerm>>) -> Seq<Option<TermModel>> {
    Seq::new(operands.len(), |i: int| operand_model(operands[i]))
}

/// A term that is read takes at least its tag byte and no more bytes than there are.
pub proof fn lemma_parse_term_used(bytes: Seq<u8>)
    ensures
        parse_term(bytes) matches Ok((_, used)) ==> 1 <= used <= bytes.len(),
{
    if bytes.len() > 0 {
        let rest = bytes.drop_first();
        match crate::decoding::scalar_kind(bytes[0]) {
            Some(kind) => {
                lemma_parse_payload_used(bytes[0], kind, rest);
            },
            None => {
                match crate::decoding::array_kind(bytes[0]) {
                    Some(kind) => {
                        lemma_parse_array_used(kind, rest);
                    },
                    None => {},
                }
            },
        }
    }
}

/// The instruction at the front of `bytes`, its operand if it has one, and the number of
/// bytes of both. An instruction that puts a literal on the stack is followed by the
/// canonical bytes of a term of the shape and kind that the instruction names; no other
/// instruction has an operand. There is none where the first byte is no instruction, or
/// where the operand cannot be read or is a term of another shape or kind.
#[verifier::opaque]
pub open spec fn parse_instruction(bytes: Seq<u8>) -> Option<(OP, Option<TermModel>, nat)> {
    if bytes.len() == 0 {
        None
    } else {
        match OP::of_code(bytes[0]) {
            None => None,
            Some(op) => match action_of(op) {
                Action::Literal(is_array, kind) => match parse_term(bytes.drop_first()) {
                    Ok((term, used)) => if term.kind() == kind && (term is Array) == is_array {
                        Some((op, Some(term), 1 + used))
                    } else {
                        None
                    },
                    Err(_) => None,
                },
                _ => Some((op, None, 1)),
            },
        }
    }
}

/// An instruction that is read takes at least one byte and no more bytes than there are.
pub proof fn lemma_parse_instruction_used(bytes: Seq<u8>)
    ensures
        parse_instruction(bytes) matches Some((_, _, used)) ==> 1 <= used <= bytes.len(),
{
    reveal(parse_instruction);
    if bytes.len() > 0 {
        lemma_parse_term_used(bytes.drop_first());
    }
}

/// The instructions of a script and their operands, where the script is instructions and
/// operands from its first byte to its last.
pub open spec fn parse_script(bytes: Seq<u8>) -> Option<(Seq<OP>, Seq<Option<TermModel>>)>
    decreases bytes.len(),
{
    if bytes.len() == 0 {
        Some((Seq::empty(), Seq::empty()))
    } else {
        match parse_instruction(bytes) {
            None => None,
            Some((op, operand, used)) => {
                proof {
                    lemma_parse_instruction_used(bytes);
                }
                match parse_script(bytes.skip(used as int)) {
                    None => None,
                    Some((ops, operands)) => Some((seq![op] + ops, seq![operand] + operands)),
                }
            },
        }
    }
}

/// The innermost open block that is a loop, where `open` holds the instructions that
/// opened the blocks which are open, outermost first.
pub open spec fn innermost_loop(ops: Seq<OP>, open: Seq<nat>) -> Option<nat>
    decreases open.len(),
{
    if open.len() == 0 {
        None
    } else if action_of(ops[open.last() as int]) is Loop {
        Some(open.last())
    } else {
        innermost_loop(ops, open.drop_last())
    }
}

/// The jump targets of the instructions from `at` on, added to `targets`, where `open`
/// holds the instructions that opened the blocks which are open at `at`, outermost first;
/// none where the blocks do not match.
///
/// The target of an `If` is the instruction behind its `Else`, or its `End` where it has no
/// `Else`; that of an `Else` and of a `Loop` is the `End` of the block; that of an `End` is
/// the first instruction of the loop it closes, or the instruction behind it where it
/// closes another block; that of a break or a continue is the `Loop` of the innermost loop
/// around it. An `Else` needs an open `If`, an `End` an open block, a break or continue a
/// loop around it, and no block may be open at the end.
pub open spec fn link_from(ops: Seq<OP>, targets: Seq<nat>, at: nat, open: Seq<nat>) -> Option<
    Seq<nat>,
>
    decreases ops.len() - at,
{
    if at >= ops.len() {
        if open.len() == 0 {
            Some(targets)
        } else {
            None
        }
    } else {
        match action_of(ops[at as int]) {
            Action::If(_) | Action::Loop => link_from(ops, targets, at + 1, open.push(at)),
            Action::Else => if open.len() > 0 && action_of(ops[open.last() as int]) is If {
                link_from(
                    ops,
                    targets.update(open.last() as int, at + 1),
                    at + 1,
                    open.drop_last().push(at),
                )
            } else {
                None
            },
            Action::End => if open.len() > 0 {
                let opener = open.last();
                let back = if action_of(ops[opener as int]) is Loop {
                    opener + 1
                } else {
                    at + 1
                };
                link_from(
                    ops,
                    targets.update(opener as int, at).update(at as int, back),
                    at + 1,
                    open.drop_last(),
                )
            } else {
                None
            },
            Action::Break(_) | Action::Continue(_) => match innermost_loop(ops, open) {
                Some(start) => link_from(ops, targets.update(at as int, start), at + 1, open),
                None => None,
            },
            _ => link_from(ops, targets, at + 1, open),
        }
    }
}

/// A script that was read and checked, as mathematics sees it: the instructions, the
/// operand of each, and the jump target of each.
pub struct ProgramModel {
    pub ops: Seq<OP>,
    pub operands: Seq<Option<TermModel>>,
    pub targets: Seq<nat>,
}

/// The program of a script; none where the script is not well formed.
pub open spec fn compile(script: Seq<u8>) -> Option<ProgramModel> {
    match parse_script(script) {
        None => None,
        Some((ops, operands)) => match link_from(
            ops,
            Seq::new(ops.len(), |i: int| 0nat),
            0,
            Seq::empty(),
        ) {
            None => None,
            Some(targets) => Some(ProgramModel { ops, operands, targets }),
        },
    }
}

/// A script that was read and checked.
#[derive(Debug)]
pub struct Program {
    pub ops: Vec<OP>,
    pub operands: Vec<Option<VmTerm>>,
    pub targets: Vec<usize>,
}

/// The targets of a program as numbers.
pub open spec fn target_models(targets: Seq<usize>) -> Seq<nat> {
    Seq::new(targets.len(), |i: int| targets[i] as nat)
}

impl Program {
    /// Every instruction has an operand slot and a target.
    pub open spec fn well_formed(self) -> bool {
        self.ops@.len() == self.operands@.len() && self.ops@.len() == self.targets@.len()
    }
}

impl View for Program {
    type V = ProgramModel;

    open spec fn view(&self) -> ProgramModel {
        ProgramModel {
            ops: self.ops@,
            operands: operand_models(self.operands@),
            targets: target_models(self.targets@),
        }
    }
}

/// What the instructions of a script come to when `ops` and `operands` were read already
/// and `rest` is what the script still holds.
spec fn script_after(ops: Seq<OP>, operands: Seq<Option<TermModel>>, rest: Seq<u8>) -> Option<
    (Seq<OP>, Seq<Option<TermModel>>),
> {
    match parse_script(rest) {
        None => None,
        Some((more_ops, more_operands)) => Some((ops + more_ops, operands + more_operands)),
    }
}

/// Nothing was read yet: the instructions are those of the whole script.
proof fn lemma_script_after_start(script: Seq<u8>)
    ensures
        script_after(Seq::empty(), Seq::empty(), script.skip(0)) == parse_script(script),
{
    assert(script.skip(0) =~= script);
    if let Some((ops, operands)) = parse_script(script) {
        assert(Seq::<OP>::empty() + ops =~= ops);
        assert(Seq::<Option<TermModel>>::empty() + operands =~= operands);
    }
}

/// The script is used up: the instructions are those that were read.
proof fn lemma_script_after_end(ops: Seq<OP>, operands: Seq<Option<TermModel>>, script: Seq<u8>)
    ensures
        script_after(ops, operands, script.skip(script.len() as int)) == Some((ops, operands)),
{
    assert(ops + Seq::<OP>::empty() =~= ops);
    assert(operands + Seq::<Option<TermModel>>::empty() =~= operands);
}

/// One more instruction is read from position `at`, or none can be read there.
proof fn lemma_script_after_step(
    ops: Seq<OP>,
    operands: Seq<Option<TermModel>>,
    script: Seq<u8>,
    at: int,
)
    requires
        0 <= at < script.len(),
    ensures
        match parse_instruction(script.skip(at)) {
            None => script_after(ops, operands, script.skip(at)) is None,
            Some((op, operand, used)) => 1 <= used && at + used <= script.len() && script_after(
                ops,
                operands,
                script.skip(at),
            ) == script_after(ops.push(op), operands.push(operand), script.skip(at + used)),
        },
{
    let rest = script.skip(at);
    lemma_parse_instruction_used(rest);
    if let Some((op, operand, used)) = parse_instruction(rest) {
        assert(rest.skip(used as int) =~= script.skip(at + used));
        if let Some((more_ops, more_operands)) = parse_script(script.skip(at + used)) {
            assert(ops + (seq![op] + more_ops) =~= ops.push(op) + more_ops);
            assert(operands + (seq![operand] + more_operands) =~= operands.push(operand)
                + more_operands);
        }
    }
}

/// Reads the instruction at the front of `bytes`.
fn read_instruction(bytes: &[u8]) -> (res: Option<(OP, Option<VmTerm>, usize)>)
    ensures
        match res {
            Some((op, operand, used)) => parse_instruction(bytes@) == Some(
                (op, operand_model(operand), used as nat),
            ),
            None => parse_instruction(bytes@) is None,
        },
{
    reveal(parse_instruction);
    if bytes.len() == 0 {
        return None;
    }
    let op = match OP::from_u8(bytes[0]) {
        Some(op) => op,
        None => {
            return None;
        },
    };
    match classify(op) {
        Action::Literal(is_array, kind) => {
            let rest = slice_subrange(bytes, 1, bytes.len());
            assert(rest@ =~= bytes@.drop_first());
            match VmTerm::decode(rest) {
                Ok((term, used)) => {
                    proof {
                        lemma_parse_term_used(rest@);
                    }
                    if term.kind() == kind && term.is_array() == is_array {
                        Some((op, Some(term), 1 + used))
                    } else {
                        None
                    }
                },
                Err(_) => None,
            }
        },
        _ => Some((op, None, 1)),
    }
}

/// Reads a script into instructions and operands.
fn read_script(script: &[u8]) -> (res: Option<(Vec<OP>, Vec<Option<VmTerm>>)>)
    ensures
        match res {
            Some((ops, operands)) => parse_script(script@) == Some(
                (ops@, operand_models(operands@)),
            ) && ops@.len() == operands@.len(),
            None => parse_script(script@) is None,
        },
{
    let mut ops: Vec<OP> = Vec::new();
    let mut operands: Vec<Option<VmTerm>> = Vec::new();
    let mut at: usize = 0;
    proof {
        lemma_script_after_start(script@);
        assert(operand_models(operands@) =~= Seq::<Option<TermModel>>::empty());
    }
    while at < script.len()
        invariant
            at <= script.len(),
            ops@.len() == operands@.len(),
            parse_script(script@) == script_after(
                ops@,
                operand_models(operands@),
                script@.skip(at as int),
            ),
        decreases script.len() - at,
    {
        let rest = slice_subrange(script, at, script.len());
        assert(rest@ =~= script@.skip(at as int));
        proof {
            lemma_script_after_step(ops@, operand_models(operands@), script@, at as int);
        }
        match read_instruction(rest) {
            None => {
                return None;
            },
            Some((op, operand, used)) => {
                proof {
                    assert(operand_models(operands@.push(operand)) =~= operand_models(
                        operands@,
                    ).push(operand_model(operand)));
                }
                ops.push(op);
                operands.push(operand);
                at = at + used;
            },
        }
    }
    proof {
        lemma_script_after_end(ops@, operand_models(operands@), script@);
    }
    Some((ops, operands))
}

/// The indices that `open` holds.
spec fn open_models(open: Seq<usize>) -> Seq<nat> {
    Seq::new(open.len(), |i: int| open[i] as nat)
}

/// Finds the innermost open loop.
fn find_innermost_loop(ops: &Vec<OP>, open: &Vec<usize>) -> (res: Option<usize>)
    requires
        forall|i: int| 0 <= i < open@.len() ==> open@[i] < ops@.len(),
    ensures
        match res {
            Some(start) => innermost_loop(ops@, open_models(open@)) == Some(start as nat),
            None => innermost_loop(ops@, open_models(open@)) is None,
        },
{
    let mut i: usize = open.len();
    assert(open_models(open@).take(i as int) =~= open_models(open@));
    while i > 0
        invariant
            i <= open.len(),
            forall|j: int| 0 <= j < open@.len() ==> open@[j] < ops@.len(),
            innermost_loop(ops@, open_models(open@)) == innermost_loop(
                ops@,
                open_models(open@).take(i as int),
            ),
        decreases i,
    {
        let ghost upto = open_models(open@).take(i as int);
        assert(upto.drop_last() =~= open_models(open@).take(i - 1));
        i -= 1;
        let start = open[i];
        if let Action::Loop = classify(ops[start]) {
            return Some(start);
        }
    }
    None
}

/// Sets the jump targets of a script that was read.
fn link(ops: &Vec<OP>) -> (res: Option<Vec<usize>>)
    ensures
        match res {
            Some(targets) => link_from(
                ops@,
                Seq::new(ops@.len(), |i: int| 0nat),
                0,
                Seq::empty(),
            ) == Some(target_models(targets@)) && targets@.len() == ops@.len(),
            None => link_from(ops@, Seq::new(ops@.len(), |i: int| 0nat), 0, Seq::empty())
                is None,
        },
{
    let mut targets: Vec<usize> = Vec::new();
    let mut n: usize = 0;
    while n < ops.len()
        invariant
            n <= ops.len(),
            targets@.len() == n,
            forall|i: int| 0 <= i < n ==> targets@[i] == 0,
        decreases ops.len() - n,
    {
        targets.push(0);
        n += 1;
    }
    assert(target_models(targets@) =~= Seq::new(ops@.len(), |i: int| 0nat));
    let mut open: Vec<usize> = Vec::new();
    assert(open_models(open@) =~= Seq::<nat>::empty());
    let mut at: usize = 0;
    while at < ops.len()
        invariant
            at <= ops.len(),
            targets@.len() == ops@.len(),
            forall|i: int| 0 <= i < open@.len() ==> open@[i] < at,
            link_from(ops@, Seq::new(ops@.len(), |i: int| 0nat), 0, Seq::empty()) == link_from(
                ops@,
                target_models(targets@),
                at as nat,
                open_models(open@),
            ),
        decreases ops.len() - at,
    {
        let ghost before = target_models(targets@);
        let ghost was_open = open_models(open@);
        match classify(ops[at]) {
            Action::If(_) | Action::Loop => {
                open.push(at);
                assert(open_models(open@) =~= was_open.push(at as nat));
            },
            Action::Else => {
                if open.len() == 0 {
                    return None;
                }
                let opener = open[open.len() - 1];
                if let Action::If(_) = classify(ops[opener]) {
                    targets.set(opener, at + 1);
                    open.pop();
                    open.push(at);
                    assert(open_models(open@) =~= was_open.drop_last().push(at as nat));
                    assert(target_models(targets@) =~= before.update(
                        opener as int,
                        (at + 1) as nat,
                    ));
                } else {
                    return None;
                }
            },
            Action::End => {
                if open.len() == 0 {
                    return None;
                }
                let opener = open[open.len() - 1];
                let back = if let Action::Loop = classify(ops[opener]) {
                    opener + 1
                } else {
                    at + 1
                };
                targets.set(opener, at);
                targets.set(at, back);
                open.pop();
                assert(open_models(open@) =~= was_open.drop_last());
                assert(target_models(targets@) =~= before.update(opener as int, at as nat).update(
                    at as int,
                    back as nat,
                ));
            },
            Action::Break(_) | Action::Continue(_) => {
                match find_innermost_loop(ops, &open) {
                    Some(start) => {
                        targets.set(at, start);
                        assert(target_models(targets@) =~= before.update(at as int, start as nat));
                    },
                    None => {
                        return None;
                    },
                }
            },
            _ => {},
        }
        at += 1;
    }
    if open.len() == 0 {
        Some(targets)
    } else {
        None
    }
}

impl Program {
    /// Reads and checks a script. There is no program where the script is not well formed:
    /// where a byte that should be an instruction is none, where an operand cannot be read
    /// or is no term of the instruction's kind, or where the control blocks do not match.
    pub fn compile(script: &[u8]) -> (res: Option<Program>)
        ensures
            match res {
                Some(program) => compile(script@) == Some(program@) && program.well_formed(),
                None => compile(script@) is None,
            },
    {
        match read_script(script) {
            None => None,
            Some((ops, operands)) => match link(&ops) {
                None => None,
                Some(targets) => Some(Program { ops, operands, targets }),
            },
        }
    }
}

} // verus!
