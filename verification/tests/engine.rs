use purplecoin_vm::bigint::BigSigned;
use purplecoin_vm::bigint::BigUnsigned;
use purplecoin_vm::engine::context::ExecutionContext;
use purplecoin_vm::engine::context::Outcome;
use purplecoin_vm::engine::context::Output;
use purplecoin_vm::engine::context::Verdict;
use purplecoin_vm::engine::machine::run;
use purplecoin_vm::engine::program::Program;
use purplecoin_vm::opcodes::OP;
use purplecoin_vm::term::VmTerm;
use sha2::Digest;

const LIMIT: u64 = 10_000;

fn context() -> ExecutionContext {
    ExecutionContext {
        chain_id: 7,
        height: 1234,
        timestamp: -5,
        is_coinbase: false,
        prev_block_hash: [9; 32],
        sequence: 77,
        prev_outputs: vec![
            Output { terms: vec![VmTerm::Unsigned8(1), VmTerm::Unsigned16(2)], coloured: false, coinbase: false },
            Output { terms: vec![VmTerm::Hash160([3; 20])], coloured: true, coinbase: false },
        ],
    }
}

/// A script of the given instructions, none of which has an operand.
fn script(ops: &[OP]) -> Vec<u8> {
    ops.iter().map(|op| op.to_u8()).collect()
}

/// The instruction that puts `term` on the stack, with its operand.
fn literal(op: OP, term: &VmTerm) -> Vec<u8> {
    let mut bytes = vec![op.to_u8()];
    bytes.extend(term.to_bytes());
    bytes
}

fn byte(value: u8) -> Vec<u8> {
    literal(OP::Unsigned8Var, &VmTerm::Unsigned8(value))
}

/// Runs `script` on `arguments` and then stages and emits the whole stack, so that the
/// outcome shows what the script left.
fn stack_after(script: &[u8], arguments: Vec<VmTerm>) -> Result<Vec<VmTerm>, Verdict> {
    let mut whole = script.to_vec();
    whole.push(OP::FlushToScriptOuts.to_u8());
    whole.push(OP::PushOut.to_u8());
    let outcome = run(&whole, arguments, &context(), LIMIT);
    match outcome.verdict {
        Verdict::Success => {
            assert_eq!(outcome.outputs.len(), 1);
            assert!(!outcome.outputs[0].coloured);
            assert!(!outcome.outputs[0].coinbase);
            Ok(outcome.outputs.into_iter().next().unwrap().terms)
        }
        other => {
            assert!(outcome.outputs.is_empty());
            Err(other)
        }
    }
}

fn after(ops: &[OP], arguments: Vec<VmTerm>) -> Result<Vec<VmTerm>, Verdict> {
    stack_after(&script(ops), arguments)
}

fn bytes_of(values: &[u8]) -> Vec<VmTerm> {
    values.iter().map(|v| VmTerm::Unsigned8(*v)).collect()
}

fn failure() -> Outcome {
    Outcome { verdict: Verdict::Failure, outputs: vec![] }
}

fn fault() -> Outcome {
    Outcome { verdict: Verdict::Fault, outputs: vec![] }
}

fn success() -> Outcome {
    Outcome { verdict: Verdict::Success, outputs: vec![] }
}

#[test]
fn an_empty_script_succeeds() {
    assert_eq!(run(&[], vec![], &context(), LIMIT), success());
    assert_eq!(run(&[], vec![], &context(), 0), success());
    assert_eq!(run(&script(&[OP::Nop, OP::Nop]), bytes_of(&[1, 2]), &context(), LIMIT), success());
}

#[test]
fn literals_go_on_the_stack() {
    let terms = vec![
        VmTerm::Hash160([1; 20]),
        VmTerm::Hash256([2; 32]),
        VmTerm::Hash512([3; 64]),
        VmTerm::Unsigned8(4),
        VmTerm::Unsigned16(5),
        VmTerm::Unsigned32(6),
        VmTerm::Unsigned64(7),
        VmTerm::Unsigned128(8),
        VmTerm::UnsignedBig(BigUnsigned::from_u128(9)),
        VmTerm::Signed8(-1),
        VmTerm::Signed16(-2),
        VmTerm::Signed32(-3),
        VmTerm::Signed64(-4),
        VmTerm::Signed128(-5),
        VmTerm::SignedBig(BigSigned::from_i128(-6)),
        VmTerm::Hash160Array(vec![[1; 20]]),
        VmTerm::Hash256Array(vec![[2; 32]]),
        VmTerm::Hash512Array(vec![[3; 64]]),
        VmTerm::Unsigned8Array(vec![4]),
        VmTerm::Unsigned16Array(vec![5]),
        VmTerm::Unsigned32Array(vec![6]),
        VmTerm::Unsigned64Array(vec![7]),
        VmTerm::Unsigned128Array(vec![8]),
        VmTerm::UnsignedBigArray(vec![BigUnsigned::from_u128(9)]),
        VmTerm::Signed8Array(vec![-1]),
        VmTerm::Signed16Array(vec![-2]),
        VmTerm::Signed32Array(vec![-3]),
        VmTerm::Signed64Array(vec![-4]),
        VmTerm::Signed128Array(vec![-5]),
        VmTerm::SignedBigArray(vec![BigSigned::from_i128(-6)]),
    ];
    let ops = [
        OP::Hash160Var,
        OP::Hash256Var,
        OP::Hash512Var,
        OP::Unsigned8Var,
        OP::Unsigned16Var,
        OP::Unsigned32Var,
        OP::Unsigned64Var,
        OP::Unsigned128Var,
        OP::UnsignedBigVar,
        OP::Signed8Var,
        OP::Signed16Var,
        OP::Signed32Var,
        OP::Signed64Var,
        OP::Signed128Var,
        OP::SignedBigVar,
        OP::Hash160ArrayVar,
        OP::Hash256ArrayVar,
        OP::Hash512ArrayVar,
        OP::Unsigned8ArrayVar,
        OP::Unsigned16ArrayVar,
        OP::Unsigned32ArrayVar,
        OP::Unsigned64ArrayVar,
        OP::Unsigned128ArrayVar,
        OP::UnsignedBigArrayVar,
        OP::Signed8ArrayVar,
        OP::Signed16ArrayVar,
        OP::Signed32ArrayVar,
        OP::Signed64ArrayVar,
        OP::Signed128ArrayVar,
        OP::SignedBigArrayVar,
    ];
    let mut whole = Vec::new();
    for (op, term) in ops.iter().zip(terms.iter()) {
        whole.extend(literal(*op, term));
        // each literal alone, and under every other literal instruction
        assert_eq!(stack_after(&literal(*op, term), vec![]), Ok(vec![term.clone()]));
        for other in ops.iter() {
            if other != op {
                assert_eq!(run(&literal(*other, term), vec![], &context(), LIMIT), fault());
            }
        }
    }
    assert_eq!(stack_after(&whole, vec![]), Ok(terms));
}

#[test]
fn fault_containment() {
    for stack in [vec![], bytes_of(&[1]), vec![VmTerm::Hash512([1; 64]), VmTerm::SignedBigArray(vec![])]] {
        assert_eq!(run(&[0x01], stack.clone(), &context(), LIMIT), fault());
        assert_eq!(run(&[0xff, 0xff, 0x06], stack.clone(), &context(), LIMIT), fault());
        // the byte is never reached, and the script faults all the same
        assert_eq!(run(&[OP::Return.to_u8(), 0x01], stack.clone(), &context(), LIMIT), fault());
        // an output was staged and made before the byte
        let mut staged = byte(1);
        staged.extend(script(&[OP::PopToScriptOuts, OP::PushOut]));
        staged.push(0x81);
        assert_eq!(run(&staged, stack.clone(), &context(), LIMIT), fault());
        assert!(Program::compile(&staged).is_none());
    }
    for unknown in 0..=255u8 {
        if OP::from_u8(unknown).is_none() {
            assert_eq!(run(&[unknown], vec![], &context(), LIMIT), fault());
            assert_eq!(run(&[0xff, unknown, 0xff], bytes_of(&[1, 1]), &context(), 0), fault());
        }
    }
}

#[test]
fn malformed_scripts_fault() {
    // an operand that is cut short, and one of another kind
    assert_eq!(run(&[OP::Unsigned8Var.to_u8()], vec![], &context(), LIMIT), fault());
    assert_eq!(run(&[OP::Unsigned8Var.to_u8(), 0x03], vec![], &context(), LIMIT), fault());
    assert_eq!(run(&[OP::Unsigned16Var.to_u8(), 0x04, 1], vec![], &context(), LIMIT), fault());
    assert_eq!(run(&[OP::Unsigned8Var.to_u8(), 0x04, 1, 0], vec![], &context(), LIMIT), fault());
    assert_eq!(run(&[OP::Unsigned8Var.to_u8(), 0x16, 1, 0], vec![], &context(), LIMIT), fault());
    assert_eq!(run(&[OP::Unsigned8ArrayVar.to_u8(), 0x03, 1], vec![], &context(), LIMIT), fault());
    // control blocks that do not match
    for ops in [
        vec![OP::If],
        vec![OP::Loop],
        vec![OP::End],
        vec![OP::Else],
        vec![OP::Break],
        vec![OP::Continue],
        vec![OP::If, OP::Else],
        vec![OP::If, OP::Else, OP::Else, OP::End],
        vec![OP::Loop, OP::Else, OP::End],
        vec![OP::If, OP::Break, OP::End],
        vec![OP::If, OP::End, OP::End],
        vec![OP::Loop, OP::If, OP::End],
        vec![OP::Loop, OP::End, OP::ContinueIfEq],
    ] {
        assert_eq!(run(&script(&ops), bytes_of(&[1, 1, 1]), &context(), LIMIT), fault());
        assert!(Program::compile(&script(&ops)).is_none());
    }
    // too few terms
    for op in [
        OP::Add, OP::Drop, OP::Dup, OP::Swap, OP::Verify, OP::If, OP::Add1, OP::Eq,
        OP::PopToScriptOuts, OP::Pick, OP::BoolAnd, OP::Within, OP::Drop2, OP::Rot, OP::Over,
    ] {
        let mut ops = vec![op];
        if op == OP::If {
            ops.push(OP::End);
        }
        assert_eq!(run(&script(&ops), vec![], &context(), LIMIT), fault());
    }
    assert_eq!(run(&script(&[OP::Add]), bytes_of(&[1]), &context(), LIMIT), fault());
    assert_eq!(run(&script(&[OP::Within]), bytes_of(&[1, 2]), &context(), LIMIT), fault());
    assert_eq!(run(&script(&[OP::Rot2]), bytes_of(&[1, 2, 3, 4, 5]), &context(), LIMIT), fault());
    assert_eq!(run(&script(&[OP::Pick]), bytes_of(&[5, 1]), &context(), LIMIT), fault());
    assert_eq!(run(&script(&[OP::Roll]), bytes_of(&[5, 2]), &context(), LIMIT), fault());
}

#[test]
fn failures() {
    // terms that the instruction is not for
    assert_eq!(
        run(&script(&[OP::Add]), vec![VmTerm::Hash256([0; 32]), VmTerm::Unsigned8(1)], &context(), LIMIT),
        failure()
    );
    assert_eq!(
        run(&script(&[OP::Add]), vec![VmTerm::Unsigned16(1), VmTerm::Unsigned8(1)], &context(), LIMIT),
        failure()
    );
    assert_eq!(
        run(&script(&[OP::Lt]), vec![VmTerm::Hash160([0; 20]), VmTerm::Hash160([1; 20])], &context(), LIMIT),
        failure()
    );
    assert_eq!(
        run(&script(&[OP::Eq]), vec![VmTerm::Unsigned8(1), VmTerm::Signed8(1)], &context(), LIMIT),
        failure()
    );
    assert_eq!(run(&script(&[OP::Add1]), vec![VmTerm::Hash160([0; 20])], &context(), LIMIT), failure());
    assert_eq!(run(&script(&[OP::ArrayLen]), bytes_of(&[1]), &context(), LIMIT), failure());
    assert_eq!(run(&script(&[OP::Pick]), vec![VmTerm::Signed8(-1)], &context(), LIMIT), failure());
    assert_eq!(run(&script(&[OP::Pick]), vec![VmTerm::Hash160([0; 20])], &context(), LIMIT), failure());
    // calculations without a result
    assert_eq!(run(&script(&[OP::Add]), bytes_of(&[255, 1]), &context(), LIMIT), failure());
    assert_eq!(run(&script(&[OP::Sub]), bytes_of(&[1, 2]), &context(), LIMIT), failure());
    assert_eq!(run(&script(&[OP::Mult]), bytes_of(&[16, 16]), &context(), LIMIT), failure());
    assert_eq!(run(&script(&[OP::Div]), bytes_of(&[16, 0]), &context(), LIMIT), failure());
    assert_eq!(run(&script(&[OP::Add1]), bytes_of(&[255]), &context(), LIMIT), failure());
    assert_eq!(run(&script(&[OP::Sub1]), bytes_of(&[0]), &context(), LIMIT), failure());
    assert_eq!(
        run(&script(&[OP::Sub1]), vec![VmTerm::UnsignedBig(BigUnsigned::zero())], &context(), LIMIT),
        failure()
    );
    assert_eq!(run(&script(&[OP::Negate]), bytes_of(&[1]), &context(), LIMIT), failure());
    assert_eq!(run(&script(&[OP::Abs]), vec![VmTerm::Signed8(i8::MIN)], &context(), LIMIT), failure());
    // checks that do not hold
    assert_eq!(run(&script(&[OP::Verify]), bytes_of(&[0]), &context(), LIMIT), failure());
    assert_eq!(run(&script(&[OP::Verify]), bytes_of(&[2]), &context(), LIMIT), failure());
    assert_eq!(run(&script(&[OP::Verify]), vec![VmTerm::Hash160([1; 20])], &context(), LIMIT), failure());
    assert_eq!(run(&script(&[OP::EqVerify]), bytes_of(&[1, 2]), &context(), LIMIT), failure());
    assert_eq!(run(&script(&[OP::NeqVerify]), bytes_of(&[2, 2]), &context(), LIMIT), failure());
    assert_eq!(run(&script(&[OP::LtVerify]), bytes_of(&[2, 2]), &context(), LIMIT), failure());
    assert_eq!(run(&script(&[OP::GtVerify]), bytes_of(&[2, 2]), &context(), LIMIT), failure());
    assert_eq!(run(&script(&[OP::LeqVerify]), bytes_of(&[3, 2]), &context(), LIMIT), failure());
    assert_eq!(run(&script(&[OP::GeqVerify]), bytes_of(&[1, 2]), &context(), LIMIT), failure());
    assert_eq!(run(&script(&[OP::PushOutVerify]), bytes_of(&[0]), &context(), LIMIT), failure());
    // a coinbase output outside a coinbase
    assert_eq!(run(&script(&[OP::PushCoinbaseOut]), vec![], &context(), LIMIT), failure());
    assert_eq!(run(&script(&[OP::PushColouredCoinbaseOut]), vec![], &context(), LIMIT), failure());
    // an index of no output that is spent
    assert_eq!(run(&script(&[OP::PushPrevScriptOut]), bytes_of(&[2]), &context(), LIMIT), failure());
}

#[test]
fn a_failed_script_has_no_outputs() {
    let mut bytes = byte(1);
    bytes.extend(script(&[OP::PopToScriptOuts, OP::PushOut]));
    assert_eq!(
        run(&bytes, vec![], &context(), LIMIT),
        Outcome {
            verdict: Verdict::Success,
            outputs: vec![Output { terms: bytes_of(&[1]), coloured: false, coinbase: false }],
        }
    );
    let mut failing = bytes.clone();
    failing.extend(byte(0));
    failing.push(OP::Verify.to_u8());
    assert_eq!(run(&failing, vec![], &context(), LIMIT), failure());
    let mut faulting = bytes.clone();
    faulting.push(OP::Drop.to_u8());
    assert_eq!(run(&faulting, vec![], &context(), LIMIT), fault());
    let mut returning = bytes.clone();
    returning.push(OP::Return.to_u8());
    returning.extend(byte(0));
    returning.push(OP::Verify.to_u8());
    assert_eq!(run(&returning, vec![], &context(), LIMIT).verdict, Verdict::Success);
    assert_eq!(run(&returning, vec![], &context(), LIMIT).outputs.len(), 1);
}

#[test]
fn bounded_execution() {
    for limit in [0, 1, 2, 3, 100, 10_000, 100_000] {
        assert_eq!(run(&script(&[OP::Loop, OP::End]), vec![], &context(), limit), failure());
        assert_eq!(
            run(&script(&[OP::Loop, OP::Nop, OP::Continue, OP::Break, OP::End]), vec![], &context(), limit),
            failure()
        );
        assert_eq!(
            run(&script(&[OP::Loop, OP::Loop, OP::Break, OP::End, OP::End]), vec![], &context(), limit),
            failure()
        );
        assert_eq!(
            run(&script(&[OP::Loop, OP::Dup, OP::End]), bytes_of(&[1]), &context(), limit),
            failure()
        );
    }
}

#[test]
fn the_cost_of_a_run() {
    // every instruction costs one unit
    assert_eq!(run(&script(&[OP::Nop]), vec![], &context(), 0), failure());
    assert_eq!(run(&script(&[OP::Nop]), vec![], &context(), 1), success());
    assert_eq!(run(&script(&[OP::Nop; 10]), vec![], &context(), 9), failure());
    assert_eq!(run(&script(&[OP::Nop; 10]), vec![], &context(), 10), success());
    // and every term that it makes costs its virtual size
    let wide = literal(OP::Unsigned64Var, &VmTerm::Unsigned64(1));
    assert_eq!(run(&wide, vec![], &context(), 8), failure());
    assert_eq!(run(&wide, vec![], &context(), 9), success());
    let array = literal(OP::Unsigned16ArrayVar, &VmTerm::Unsigned16Array(vec![1, 2, 3]));
    assert_eq!(run(&array, vec![], &context(), 30), failure());
    assert_eq!(run(&array, vec![], &context(), 31), success());
    let big = literal(OP::SignedBigVar, &VmTerm::SignedBig(BigSigned::from_i128(-300)));
    assert_eq!(run(&big, vec![], &context(), 34), failure());
    assert_eq!(run(&big, vec![], &context(), 35), success());
    // a copy costs, a move does not
    let args = vec![VmTerm::Hash512([0; 64]), VmTerm::Hash256([0; 32])];
    assert_eq!(run(&script(&[OP::Swap]), args.clone(), &context(), 1), success());
    assert_eq!(run(&script(&[OP::Dup]), args.clone(), &context(), 32), failure());
    assert_eq!(run(&script(&[OP::Dup]), args.clone(), &context(), 33), success());
    assert_eq!(run(&script(&[OP::Over]), args.clone(), &context(), 64), failure());
    assert_eq!(run(&script(&[OP::Over]), args.clone(), &context(), 65), success());
    assert_eq!(run(&script(&[OP::Dup2]), args.clone(), &context(), 96), failure());
    assert_eq!(run(&script(&[OP::Dup2]), args.clone(), &context(), 97), success());
    assert_eq!(run(&script(&[OP::Depth]), args.clone(), &context(), 8), failure());
    assert_eq!(run(&script(&[OP::Depth]), args.clone(), &context(), 9), success());
    assert_eq!(run(&script(&[OP::PushPrevScriptOuts]), vec![], &context(), 23), failure());
    assert_eq!(run(&script(&[OP::PushPrevScriptOuts]), vec![], &context(), 24), success());
    assert_eq!(run(&script(&[OP::Eq]), args.clone(), &context(), 2), failure());
    assert_eq!(run(&script(&[OP::Add1, OP::Add1]), bytes_of(&[1]), &context(), 3), failure());
    assert_eq!(run(&script(&[OP::Add1, OP::Add1]), bytes_of(&[1]), &context(), 4), success());
}

#[test]
fn determinism() {
    let mut bytes = byte(0);
    bytes.extend(script(&[OP::Loop, OP::Add1, OP::Dup, OP::PopToScriptOuts, OP::Dup]));
    bytes.extend(byte(5));
    bytes.extend(script(&[OP::BreakIfEq, OP::End, OP::ChainHeight, OP::PopToScriptOuts, OP::PushOut]));
    let first = run(&bytes, bytes_of(&[9]), &context(), LIMIT);
    let second = run(&bytes, bytes_of(&[9]), &context(), LIMIT);
    assert_eq!(first, second);
    assert_eq!(first.verdict, Verdict::Success);
    assert_eq!(
        first.outputs,
        vec![Output {
            terms: vec![
                VmTerm::Unsigned8(1),
                VmTerm::Unsigned8(2),
                VmTerm::Unsigned8(3),
                VmTerm::Unsigned8(4),
                VmTerm::Unsigned8(5),
                VmTerm::Unsigned64(1234),
            ],
            coloured: false,
            coinbase: false,
        }]
    );
    for limit in 0..200 {
        assert_eq!(
            run(&bytes, bytes_of(&[9]), &context(), limit),
            run(&bytes, bytes_of(&[9]), &context(), limit)
        );
    }
}

#[test]
fn the_context_can_be_read() {
    assert_eq!(after(&[OP::ChainId], vec![]), Ok(vec![VmTerm::Unsigned8(7)]));
    assert_eq!(after(&[OP::ChainHeight], vec![]), Ok(vec![VmTerm::Unsigned64(1234)]));
    assert_eq!(after(&[OP::ChainTimestamp], vec![]), Ok(vec![VmTerm::Signed64(-5)]));
    assert_eq!(after(&[OP::IsCoinbase], vec![]), Ok(bytes_of(&[0])));
    assert_eq!(after(&[OP::PrevBlockHash], vec![]), Ok(vec![VmTerm::Hash256([9; 32])]));
    assert_eq!(after(&[OP::NSequence], vec![]), Ok(vec![VmTerm::Unsigned32(77)]));
    assert_eq!(after(&[OP::PushPrevScriptOutsLen], vec![]), Ok(vec![VmTerm::Unsigned64(2)]));
    assert_eq!(
        after(&[OP::Nop, OP::Nop, OP::PushExecCount, OP::PushExecCount], vec![]),
        Ok(vec![VmTerm::Unsigned64(2), VmTerm::Unsigned64(3)])
    );
    assert_eq!(after(&[OP::HasInput], vec![]), Ok(bytes_of(&[1])));
    assert_eq!(after(&[OP::HasOutput], vec![]), Ok(bytes_of(&[0])));
    let outcome = run(
        &script(&[OP::PushOut, OP::HasOutput, OP::HasColouredOutput, OP::FlushToScriptOuts, OP::PushOut]),
        vec![],
        &context(),
        LIMIT,
    );
    assert_eq!(outcome.verdict, Verdict::Success);
    assert_eq!(outcome.outputs.len(), 2);
    assert_eq!(outcome.outputs[0].terms, vec![]);
    assert_eq!(outcome.outputs[1].terms, bytes_of(&[1, 0]));
    assert_eq!(after(&[OP::HasColouredInput], vec![]), Ok(bytes_of(&[1])));
    assert_eq!(after(&[OP::HasColouredOutput], vec![]), Ok(bytes_of(&[0])));
    assert_eq!(
        after(&[OP::PushPrevScriptOuts], bytes_of(&[5])),
        Ok(vec![
            VmTerm::Unsigned8(5),
            VmTerm::Unsigned8(1),
            VmTerm::Unsigned16(2),
            VmTerm::Hash160([3; 20]),
        ])
    );
    assert_eq!(
        after(&[OP::PushPrevScriptOut], bytes_of(&[5, 0])),
        Ok(vec![VmTerm::Unsigned8(5), VmTerm::Unsigned8(1), VmTerm::Unsigned16(2)])
    );
    assert_eq!(
        after(&[OP::PushPrevScriptOut], bytes_of(&[1])),
        Ok(vec![VmTerm::Hash160([3; 20])])
    );
    let mut coinbase = context();
    coinbase.is_coinbase = true;
    coinbase.prev_outputs = vec![];
    let outcome = run(
        &script(&[
            OP::IsCoinbase, OP::HasInput, OP::HasColouredInput, OP::FlushToScriptOuts,
            OP::PushCoinbaseOut, OP::HasColouredOutput, OP::PopToScriptOuts,
            OP::PushColouredCoinbaseOut, OP::HasColouredOutput, OP::PopToScriptOuts, OP::PushOut,
        ]),
        vec![],
        &coinbase,
        LIMIT,
    );
    assert_eq!(
        outcome,
        Outcome {
            verdict: Verdict::Success,
            outputs: vec![
                Output { terms: bytes_of(&[1, 0, 0]), coloured: false, coinbase: true },
                Output { terms: bytes_of(&[0]), coloured: true, coinbase: true },
                Output { terms: bytes_of(&[1]), coloured: false, coinbase: false },
            ],
        }
    );
}

#[test]
fn the_stack_can_be_rearranged() {
    let six = bytes_of(&[1, 2, 3, 4, 5, 6]);
    assert_eq!(after(&[OP::Depth], six.clone()), Ok([six.clone(), vec![VmTerm::Unsigned64(6)]].concat()));
    assert_eq!(after(&[OP::Depth], vec![]), Ok(vec![VmTerm::Unsigned64(0)]));
    assert_eq!(after(&[OP::Drop], six.clone()), Ok(bytes_of(&[1, 2, 3, 4, 5])));
    assert_eq!(after(&[OP::Drop2], six.clone()), Ok(bytes_of(&[1, 2, 3, 4])));
    assert_eq!(after(&[OP::Dup], six.clone()), Ok(bytes_of(&[1, 2, 3, 4, 5, 6, 6])));
    assert_eq!(after(&[OP::Dup2], six.clone()), Ok(bytes_of(&[1, 2, 3, 4, 5, 6, 5, 6])));
    assert_eq!(after(&[OP::Dup3], six.clone()), Ok(bytes_of(&[1, 2, 3, 4, 5, 6, 4, 5, 6])));
    assert_eq!(after(&[OP::IfDup], six.clone()), Ok(six.clone()));
    assert_eq!(after(&[OP::IfDup], bytes_of(&[2, 1])), Ok(bytes_of(&[2, 1, 1])));
    assert_eq!(after(&[OP::Nip], six.clone()), Ok(bytes_of(&[1, 2, 3, 4, 6])));
    assert_eq!(after(&[OP::Over], six.clone()), Ok(bytes_of(&[1, 2, 3, 4, 5, 6, 5])));
    assert_eq!(after(&[OP::Over2], six.clone()), Ok(bytes_of(&[1, 2, 3, 4, 5, 6, 3, 4])));
    assert_eq!(after(&[OP::Rot], six.clone()), Ok(bytes_of(&[1, 2, 3, 5, 6, 4])));
    assert_eq!(after(&[OP::Rot2], six.clone()), Ok(bytes_of(&[3, 4, 5, 6, 1, 2])));
    assert_eq!(after(&[OP::Swap], six.clone()), Ok(bytes_of(&[1, 2, 3, 4, 6, 5])));
    assert_eq!(after(&[OP::Swap2], six.clone()), Ok(bytes_of(&[1, 2, 5, 6, 3, 4])));
    assert_eq!(after(&[OP::Tuck], six.clone()), Ok(bytes_of(&[1, 2, 3, 4, 6, 5, 6])));
    assert_eq!(after(&[OP::Pick], bytes_of(&[7, 8, 9, 0])), Ok(bytes_of(&[7, 8, 9, 9])));
    assert_eq!(after(&[OP::Pick], bytes_of(&[7, 8, 9, 2])), Ok(bytes_of(&[7, 8, 9, 7])));
    assert_eq!(after(&[OP::Roll], bytes_of(&[7, 8, 9, 0])), Ok(bytes_of(&[7, 8, 9])));
    assert_eq!(after(&[OP::Roll], bytes_of(&[7, 8, 9, 2])), Ok(bytes_of(&[8, 9, 7])));
    assert_eq!(
        after(&[OP::Roll], vec![VmTerm::Unsigned8(7), VmTerm::Unsigned8(8), VmTerm::SignedBig(BigSigned::from_i128(1))]),
        Ok(bytes_of(&[8, 7]))
    );
    assert_eq!(after(&[OP::Pick], bytes_of(&[7, 8, 9, 3])), Err(Verdict::Fault));
    assert_eq!(
        after(&[OP::Pick], vec![VmTerm::Unsigned8(7), VmTerm::UnsignedBig(BigUnsigned::from_le_bytes(&[1; 40]))]),
        Err(Verdict::Fault)
    );
    assert_eq!(after(&[OP::ClearStack], six.clone()), Ok(vec![]));
    assert_eq!(after(&[OP::ClearStack], vec![]), Ok(vec![]));
}

#[test]
fn calculations_and_comparisons() {
    assert_eq!(after(&[OP::Add], bytes_of(&[9, 20, 3])), Ok(bytes_of(&[9, 23])));
    assert_eq!(after(&[OP::Sub], bytes_of(&[9, 20, 3])), Ok(bytes_of(&[9, 17])));
    assert_eq!(after(&[OP::Mult], bytes_of(&[9, 20, 3])), Ok(bytes_of(&[9, 60])));
    assert_eq!(after(&[OP::Div], bytes_of(&[9, 20, 3])), Ok(bytes_of(&[9, 6])));
    assert_eq!(after(&[OP::Min], bytes_of(&[9, 20, 3])), Ok(bytes_of(&[9, 3])));
    assert_eq!(after(&[OP::Max], bytes_of(&[9, 20, 3])), Ok(bytes_of(&[9, 20])));
    assert_eq!(after(&[OP::Add1], bytes_of(&[9, 20])), Ok(bytes_of(&[9, 21])));
    assert_eq!(after(&[OP::Sub1], bytes_of(&[9, 20])), Ok(bytes_of(&[9, 19])));
    assert_eq!(after(&[OP::Negate], vec![VmTerm::Signed8(5)]), Ok(vec![VmTerm::Signed8(-5)]));
    assert_eq!(after(&[OP::Negate], bytes_of(&[0])), Ok(bytes_of(&[0])));
    assert_eq!(
        after(&[OP::Negate], vec![VmTerm::SignedBig(BigSigned::from_i128(-5))]),
        Ok(vec![VmTerm::SignedBig(BigSigned::from_i128(5))])
    );
    assert_eq!(
        after(&[OP::Negate], vec![VmTerm::UnsignedBig(BigUnsigned::zero())]),
        Ok(vec![VmTerm::UnsignedBig(BigUnsigned::zero())])
    );
    assert_eq!(
        after(&[OP::Negate], vec![VmTerm::UnsignedBig(BigUnsigned::from_u128(1))]),
        Err(Verdict::Failure)
    );
    assert_eq!(after(&[OP::Abs], vec![VmTerm::Signed8(-5)]), Ok(vec![VmTerm::Signed8(5)]));
    assert_eq!(after(&[OP::Abs], vec![VmTerm::Signed64(5)]), Ok(vec![VmTerm::Signed64(5)]));
    assert_eq!(after(&[OP::Abs], bytes_of(&[5])), Ok(bytes_of(&[5])));
    assert_eq!(
        after(&[OP::Abs], vec![VmTerm::SignedBig(BigSigned::from_i128(-5))]),
        Ok(vec![VmTerm::SignedBig(BigSigned::from_i128(5))])
    );
    assert_eq!(after(&[OP::Within], bytes_of(&[5, 1, 9])), Ok(bytes_of(&[5])));
    assert_eq!(after(&[OP::Within], bytes_of(&[0, 1, 9])), Ok(bytes_of(&[1])));
    assert_eq!(after(&[OP::Within], bytes_of(&[10, 1, 9])), Ok(bytes_of(&[9])));
    assert_eq!(after(&[OP::Within], bytes_of(&[10, 9, 9])), Ok(bytes_of(&[9])));
    assert_eq!(after(&[OP::Within], bytes_of(&[5, 9, 1])), Err(Verdict::Failure));
    assert_eq!(
        after(&[OP::Within], vec![VmTerm::Unsigned8(5), VmTerm::Unsigned8(1), VmTerm::Unsigned16(9)]),
        Err(Verdict::Failure)
    );
    for (op, expected) in [
        (OP::Eq, [0, 1, 0]),
        (OP::Neq, [1, 0, 1]),
        (OP::Lt, [1, 0, 0]),
        (OP::Gt, [0, 0, 1]),
        (OP::Leq, [1, 1, 0]),
        (OP::Geq, [0, 1, 1]),
    ] {
        assert_eq!(after(&[op], bytes_of(&[2, 3])), Ok(bytes_of(&[expected[0]])));
        assert_eq!(after(&[op], bytes_of(&[3, 3])), Ok(bytes_of(&[expected[1]])));
        assert_eq!(after(&[op], bytes_of(&[4, 3])), Ok(bytes_of(&[expected[2]])));
    }
    assert_eq!(after(&[OP::BoolAnd], bytes_of(&[1, 1])), Ok(bytes_of(&[1])));
    assert_eq!(after(&[OP::BoolAnd], bytes_of(&[1, 0])), Ok(bytes_of(&[0])));
    assert_eq!(after(&[OP::BoolAnd], bytes_of(&[1, 2])), Ok(bytes_of(&[0])));
    assert_eq!(after(&[OP::BoolOr], bytes_of(&[0, 1])), Ok(bytes_of(&[1])));
    assert_eq!(after(&[OP::BoolOr], bytes_of(&[0, 0])), Ok(bytes_of(&[0])));
    assert_eq!(
        after(&[OP::BoolOr], vec![VmTerm::Hash160([1; 20]), VmTerm::Signed128(1)]),
        Ok(bytes_of(&[1]))
    );
    assert_eq!(
        after(&[OP::Eq], vec![VmTerm::Unsigned8Array(vec![1]), VmTerm::Unsigned8Array(vec![1])]),
        Ok(bytes_of(&[1]))
    );
    assert_eq!(
        after(
            &[OP::Mult],
            vec![
                VmTerm::UnsignedBig(BigUnsigned::from_u128(u128::MAX)),
                VmTerm::UnsignedBig(BigUnsigned::from_u128(u128::MAX)),
            ]
        ),
        Ok(vec![VmTerm::UnsignedBig(BigUnsigned::from_le_bytes(
            &[vec![1u8], vec![0u8; 15], vec![0xfe], vec![0xff; 15]].concat()
        ))])
    );
}

#[test]
fn questions_about_one_term() {
    assert_eq!(
        after(&[OP::ArrayLen], vec![VmTerm::Unsigned16Array(vec![1, 2, 3])]),
        Ok(vec![VmTerm::Unsigned64(3)])
    );
    assert_eq!(
        after(&[OP::ArrayLen], vec![VmTerm::SignedBigArray(vec![])]),
        Ok(vec![VmTerm::Unsigned64(0)])
    );
    assert_eq!(after(&[OP::GetType], vec![VmTerm::Hash160([0; 20])]), Ok(bytes_of(&[0x00])));
    assert_eq!(after(&[OP::GetType], bytes_of(&[9])), Ok(bytes_of(&[0x03])));
    assert_eq!(after(&[OP::GetType], vec![VmTerm::Signed128(9)]), Ok(bytes_of(&[0x0d])));
    assert_eq!(
        after(&[OP::GetType], vec![VmTerm::SignedBig(BigSigned::from_i128(-1))]),
        Ok(bytes_of(&[0x0e]))
    );
    assert_eq!(
        after(&[OP::GetType], vec![VmTerm::SignedBig(BigSigned::from_i128(1))]),
        Ok(bytes_of(&[0x0f]))
    );
    assert_eq!(
        after(&[OP::GetType], vec![VmTerm::SignedBig(BigSigned::zero())]),
        Ok(bytes_of(&[0x10]))
    );
    assert_eq!(after(&[OP::GetType], vec![VmTerm::Hash160Array(vec![])]), Ok(bytes_of(&[0x13])));
    assert_eq!(after(&[OP::GetType], vec![VmTerm::SignedBigArray(vec![])]), Ok(bytes_of(&[0x21])));
    assert_eq!(
        after(&[OP::Size], vec![VmTerm::Unsigned32Array(vec![1, 2])]),
        Ok(vec![VmTerm::Unsigned64(32)])
    );
    assert_eq!(after(&[OP::Size], vec![VmTerm::Hash512([0; 64])]), Ok(vec![VmTerm::Unsigned64(64)]));
    for op in [OP::IsNaN, OP::IsInf, OP::IsMinusInf] {
        assert_eq!(after(&[op], bytes_of(&[1])), Ok(bytes_of(&[0])));
        assert_eq!(after(&[op], vec![VmTerm::SignedBig(BigSigned::from_i128(-1))]), Ok(bytes_of(&[0])));
        assert_eq!(after(&[op], vec![VmTerm::Hash160([0; 20])]), Err(Verdict::Failure));
        assert_eq!(after(&[op], vec![VmTerm::Unsigned8Array(vec![])]), Err(Verdict::Failure));
    }
}

#[test]
fn blocks_and_loops() {
    let then_else = |condition: OP| {
        let mut bytes = vec![condition.to_u8()];
        bytes.extend(byte(10));
        bytes.push(OP::Else.to_u8());
        bytes.extend(byte(20));
        bytes.push(OP::End.to_u8());
        bytes.extend(byte(30));
        bytes
    };
    assert_eq!(stack_after(&then_else(OP::If), bytes_of(&[1])), Ok(bytes_of(&[10, 30])));
    assert_eq!(stack_after(&then_else(OP::If), bytes_of(&[0])), Ok(bytes_of(&[20, 30])));
    assert_eq!(stack_after(&then_else(OP::If), bytes_of(&[2])), Ok(bytes_of(&[20, 30])));
    assert_eq!(stack_after(&then_else(OP::Ifn), bytes_of(&[1])), Ok(bytes_of(&[20, 30])));
    assert_eq!(stack_after(&then_else(OP::Ifn), bytes_of(&[0])), Ok(bytes_of(&[10, 30])));
    assert_eq!(stack_after(&then_else(OP::IfEq), bytes_of(&[4, 4])), Ok(bytes_of(&[10, 30])));
    assert_eq!(stack_after(&then_else(OP::IfNeq), bytes_of(&[4, 4])), Ok(bytes_of(&[20, 30])));
    assert_eq!(stack_after(&then_else(OP::IfLt), bytes_of(&[3, 4])), Ok(bytes_of(&[10, 30])));
    assert_eq!(stack_after(&then_else(OP::IfGt), bytes_of(&[3, 4])), Ok(bytes_of(&[20, 30])));
    assert_eq!(stack_after(&then_else(OP::IfLeq), bytes_of(&[4, 4])), Ok(bytes_of(&[10, 30])));
    assert_eq!(stack_after(&then_else(OP::IfGeq), bytes_of(&[3, 4])), Ok(bytes_of(&[20, 30])));
    assert_eq!(
        stack_after(&then_else(OP::IfEq), vec![VmTerm::Unsigned8(4), VmTerm::Unsigned16(4)]),
        Err(Verdict::Failure)
    );
    // a block without an else
    assert_eq!(after(&[OP::If, OP::Dup, OP::End, OP::Dup], bytes_of(&[7, 1])), Ok(bytes_of(&[7, 7, 7])));
    assert_eq!(after(&[OP::If, OP::Dup, OP::End, OP::Dup], bytes_of(&[7, 0])), Ok(bytes_of(&[7, 7])));
    // blocks in blocks
    assert_eq!(
        after(
            &[OP::If, OP::If, OP::Add1, OP::Else, OP::Sub1, OP::End, OP::Else, OP::Drop, OP::Dup, OP::End],
            bytes_of(&[7, 0, 1])
        ),
        Ok(bytes_of(&[6]))
    );
    assert_eq!(
        after(
            &[OP::If, OP::If, OP::Add1, OP::Else, OP::Sub1, OP::End, OP::Else, OP::Drop, OP::Dup, OP::End],
            bytes_of(&[7, 1, 0])
        ),
        Ok(bytes_of(&[7, 7]))
    );
    // a loop that counts to five
    let mut counting = script(&[OP::Loop, OP::Add1, OP::Dup]);
    counting.extend(byte(5));
    counting.extend(script(&[OP::BreakIfEq, OP::End, OP::Dup]));
    assert_eq!(stack_after(&counting, bytes_of(&[0])), Ok(bytes_of(&[5, 5])));
    assert_eq!(stack_after(&counting, bytes_of(&[3])), Ok(bytes_of(&[5, 5])));
    // a break out of a block in a loop, and a continue
    assert_eq!(
        after(&[OP::Loop, OP::Dup, OP::If, OP::Break, OP::End, OP::Add1, OP::End, OP::Dup], bytes_of(&[0])),
        Ok(bytes_of(&[1, 1]))
    );
    assert_eq!(
        after(
            &[OP::Loop, OP::Add1, OP::Dup, OP::Dup, OP::ContinueIfNeq, OP::Break, OP::End],
            bytes_of(&[0])
        ),
        Ok(bytes_of(&[1]))
    );
    let mut skipping = script(&[OP::Loop, OP::Add1, OP::Dup]);
    skipping.extend(byte(3));
    skipping.extend(script(&[OP::ContinueIfLt, OP::Break, OP::Add1, OP::End]));
    assert_eq!(stack_after(&skipping, bytes_of(&[0])), Ok(bytes_of(&[3])));
    // a loop in a loop: the inner break leaves the inner loop only
    let mut nested = script(&[OP::Loop, OP::Loop, OP::Add1, OP::Break, OP::End, OP::Dup]);
    nested.extend(byte(3));
    nested.extend(script(&[OP::BreakIfGeq, OP::End]));
    assert_eq!(stack_after(&nested, bytes_of(&[0])), Ok(bytes_of(&[3])));
    for (op, taken) in [
        (OP::BreakIf, 1u8),
        (OP::BreakIfn, 0),
    ] {
        assert_eq!(after(&[OP::Loop, op, OP::End], bytes_of(&[9, taken])), Ok(bytes_of(&[9])));
    }
    for (op, left, right) in [
        (OP::BreakIfEq, 1u8, 1u8),
        (OP::BreakIfNeq, 1, 2),
        (OP::BreakIfLt, 1, 2),
        (OP::BreakIfGt, 2, 1),
        (OP::BreakIfLeq, 2, 2),
        (OP::BreakIfGeq, 2, 2),
    ] {
        assert_eq!(after(&[OP::Loop, op, OP::End], bytes_of(&[9, left, right])), Ok(bytes_of(&[9])));
    }
    // return
    assert_eq!(
        run(&script(&[OP::Return, OP::Add]), vec![], &context(), LIMIT),
        success()
    );
    assert_eq!(
        run(&script(&[OP::Loop, OP::If, OP::Return, OP::End, OP::End]), bytes_of(&[1]), &context(), LIMIT),
        success()
    );
}

#[test]
fn outputs() {
    let outcome = run(
        &script(&[
            OP::PopToScriptOuts, OP::PushOut, OP::PushOut, OP::PickToScriptOuts, OP::FlushToScriptOuts,
            OP::PushOutIf, OP::PushOutIf,
        ]),
        vec![
            VmTerm::Unsigned8(0),
            VmTerm::Unsigned8(1),
            VmTerm::Unsigned16(5),
            VmTerm::Unsigned16(6),
            VmTerm::Unsigned8(1),
            VmTerm::Hash160([4; 20]),
        ],
        &context(),
        LIMIT,
    );
    assert_eq!(outcome, fault());
    let outcome = run(
        &script(&[
            OP::PopToScriptOuts, OP::PushOut, OP::PushOut, OP::PickToScriptOuts, OP::Drop, OP::Drop,
            OP::PushOutIf, OP::PushOutIf, OP::Swap, OP::PopToScriptOuts, OP::PushOutVerify,
        ]),
        vec![
            VmTerm::Unsigned64(8),
            VmTerm::Unsigned8(1),
            VmTerm::Unsigned8(1),
            VmTerm::Unsigned8(0),
            VmTerm::Unsigned16(5),
            VmTerm::Unsigned16(6),
            VmTerm::Unsigned8(1),
            VmTerm::Hash160([4; 20]),
        ],
        &context(),
        LIMIT,
    );
    assert_eq!(
        outcome,
        Outcome {
            verdict: Verdict::Success,
            outputs: vec![
                Output { terms: vec![VmTerm::Hash160([4; 20])], coloured: false, coinbase: false },
                Output { terms: vec![], coloured: false, coinbase: false },
                Output { terms: vec![VmTerm::Unsigned16(5)], coloured: false, coinbase: false },
                Output { terms: vec![VmTerm::Unsigned64(8)], coloured: false, coinbase: false },
            ],
        }
    );
    for (op, left, right, made) in [
        (OP::PushOutIfEq, 1u8, 1u8, true),
        (OP::PushOutIfEq, 1, 2, false),
        (OP::PushOutIfNeq, 1, 2, true),
        (OP::PushOutIfLt, 1, 2, true),
        (OP::PushOutIfGt, 1, 2, false),
        (OP::PushOutIfLeq, 2, 2, true),
        (OP::PushOutIfGeq, 1, 2, false),
    ] {
        let outcome = run(&script(&[op]), bytes_of(&[left, right]), &context(), LIMIT);
        assert_eq!(outcome.verdict, Verdict::Success);
        assert_eq!(outcome.outputs.len(), if made { 1 } else { 0 });
    }
    assert_eq!(
        run(&script(&[OP::PushOutIfLt]), vec![VmTerm::Hash160([0; 20]), VmTerm::Hash160([1; 20])], &context(), LIMIT),
        failure()
    );
}

#[test]
fn instructions_that_are_not_run() {
    for op in [
        OP::Func, OP::Call, OP::ReturnFunc, OP::Blake3_256_160, OP::Blake3_256Internal,
        OP::Blake3_512Internal, OP::Blake3_256_160Internal,
    ] {
        assert!(Program::compile(&script(&[op])).is_some());
        assert_eq!(run(&script(&[op]), bytes_of(&[1, 1]), &context(), LIMIT), failure());
        assert_eq!(run(&script(&[OP::Return, op]), bytes_of(&[1, 1]), &context(), LIMIT), success());
    }
}

#[test]
fn a_program_can_be_read() {
    let mut bytes = byte(7);
    bytes.extend(script(&[OP::If, OP::Loop, OP::Break, OP::Continue, OP::End, OP::Else, OP::Nop, OP::End]));
    let program = Program::compile(&bytes).unwrap();
    assert_eq!(
        program.ops,
        vec![
            OP::Unsigned8Var, OP::If, OP::Loop, OP::Break, OP::Continue, OP::End, OP::Else, OP::Nop,
            OP::End,
        ]
    );
    assert_eq!(program.operands[0], Some(VmTerm::Unsigned8(7)));
    assert!(program.operands[1..].iter().all(|operand| operand.is_none()));
    assert_eq!(program.targets, vec![0, 7, 5, 2, 2, 3, 8, 0, 9]);
}

fn hex_to_bytes(text: &str) -> Vec<u8> {
    hex::decode(text).unwrap()
}

#[test]
fn hashes() {
    let abc = VmTerm::Unsigned8Array(b"abc".to_vec());
    let empty = VmTerm::Unsigned8Array(vec![]);
    let sha256_abc = hex_to_bytes("ba7816bf8f01cfea414140de5dae2223b00361a396177a9cb410ff61f20015ad");
    let sha256_empty = hex_to_bytes("e3b0c44298fc1c149afbf4c8996fb92427ae41e4649b934ca495991b7852b855");
    assert_eq!(
        after(&[OP::Sha256], vec![abc.clone()]),
        Ok(vec![VmTerm::Hash256(sha256_abc.clone().try_into().unwrap())])
    );
    assert_eq!(
        after(&[OP::Sha256], vec![empty.clone()]),
        Ok(vec![VmTerm::Hash256(sha256_empty.try_into().unwrap())])
    );
    // a hash bears bytes too
    let twice: [u8; 32] = sha2::Sha256::digest(&sha256_abc).into();
    assert_eq!(after(&[OP::Sha256, OP::Sha256], vec![abc.clone()]), Ok(vec![VmTerm::Hash256(twice)]));

    let data = b"The quick brown fox jumps over the lazy dog".to_vec();
    let term = VmTerm::Unsigned8Array(data.clone());
    let sha512: [u8; 64] = sha2::Sha512::digest(&data).into();
    assert_eq!(after(&[OP::Sha512], vec![term.clone()]), Ok(vec![VmTerm::Hash512(sha512)]));
    let keccak256: [u8; 32] = sha3::Keccak256::digest(&data).into();
    assert_eq!(after(&[OP::Keccak256], vec![term.clone()]), Ok(vec![VmTerm::Hash256(keccak256)]));
    assert_eq!(
        hex::encode(keccak256),
        "4d741b6f1eb29cb2a9b9911c82f56fa8d73b04959d3d9d222895df6c0b28aa15"
    );
    let keccak512: [u8; 64] = sha3::Keccak512::digest(&data).into();
    assert_eq!(after(&[OP::Keccak512], vec![term.clone()]), Ok(vec![VmTerm::Hash512(keccak512)]));
    let blake2b256: [u8; 32] = blake2::Blake2b::<blake2::digest::consts::U32>::digest(&data).into();
    assert_eq!(after(&[OP::Blake2b256], vec![term.clone()]), Ok(vec![VmTerm::Hash256(blake2b256)]));
    let blake2b512: [u8; 64] = blake2::Blake2b512::digest(&data).into();
    assert_eq!(after(&[OP::Blake2b512], vec![term.clone()]), Ok(vec![VmTerm::Hash512(blake2b512)]));
    let ripemd: [u8; 20] = ripemd::Ripemd160::digest(&data).into();
    assert_eq!(after(&[OP::Ripemd160], vec![term.clone()]), Ok(vec![VmTerm::Hash160(ripemd)]));
    assert_eq!(hex::encode(ripemd), "37f332f68db77bd9d7edd4969571ad671cf9dd3b");

    let blake3_256: [u8; 32] = *blake3::hash(&data).as_bytes();
    assert_eq!(after(&[OP::Blake3_256], vec![term.clone()]), Ok(vec![VmTerm::Hash256(blake3_256)]));
    let mut blake3_512 = [0u8; 64];
    blake3::Hasher::new().update(&data).finalize_xof().fill(&mut blake3_512);
    assert_eq!(&blake3_512[..32], &blake3_256);
    assert_eq!(after(&[OP::Blake3_512], vec![term.clone()]), Ok(vec![VmTerm::Hash512(blake3_512)]));
    let blake3_160: [u8; 20] = blake3_256[..20].try_into().unwrap();
    assert_eq!(after(&[OP::Blake3_160], vec![term.clone()]), Ok(vec![VmTerm::Hash160(blake3_160)]));
    assert_eq!(
        after(&[OP::Blake3_256], vec![empty.clone()]),
        Ok(vec![VmTerm::Hash256(
            hex_to_bytes("af1349b9f5f9a1a6a0404dea36dcc9499bcb25c9adc112b7cc9a93cae41f3262")
                .try_into()
                .unwrap()
        )])
    );

    let key = [0x42u8; 32];
    let keyed: [u8; 32] = *blake3::keyed_hash(&key, &data).as_bytes();
    assert_ne!(keyed, blake3_256);
    assert_eq!(
        after(&[OP::Blake3_256Keyed], vec![term.clone(), VmTerm::Hash256(key)]),
        Ok(vec![VmTerm::Hash256(keyed)])
    );
    let mut keyed_512 = [0u8; 64];
    blake3::Hasher::new_keyed(&key).update(&data).finalize_xof().fill(&mut keyed_512);
    assert_eq!(
        after(&[OP::Blake3_512Keyed], vec![term.clone(), VmTerm::Hash256(key)]),
        Ok(vec![VmTerm::Hash512(keyed_512)])
    );
    assert_eq!(
        after(&[OP::Blake3_160Keyed], vec![term.clone(), VmTerm::Hash256(key)]),
        Ok(vec![VmTerm::Hash160(keyed[..20].try_into().unwrap())])
    );
    // a key must be a hash of 256 bits, and only bytes can be hashed
    assert_eq!(
        after(&[OP::Blake3_256Keyed], vec![term.clone(), VmTerm::Hash160([1; 20])]),
        Err(Verdict::Failure)
    );
    assert_eq!(
        after(&[OP::Blake3_256Keyed], vec![term.clone(), VmTerm::Unsigned8Array(vec![1; 32])]),
        Err(Verdict::Failure)
    );
    assert_eq!(after(&[OP::Blake3_256Keyed], vec![VmTerm::Hash256(key)]), Err(Verdict::Fault));
    for op in [
        OP::Sha256, OP::Sha512, OP::Keccak256, OP::Keccak512, OP::Blake2b256, OP::Blake2b512,
        OP::Blake3_160, OP::Blake3_256, OP::Blake3_512, OP::Ripemd160,
    ] {
        assert_eq!(after(&[op], vec![VmTerm::Unsigned8(1)]), Err(Verdict::Failure));
        assert_eq!(after(&[op], vec![VmTerm::Unsigned16Array(vec![1])]), Err(Verdict::Failure));
        assert_eq!(after(&[op], vec![VmTerm::Signed8Array(vec![1])]), Err(Verdict::Failure));
        assert_eq!(after(&[op], vec![]), Err(Verdict::Fault));
        assert_eq!(after(&[op], vec![term.clone()]), after(&[op], vec![term.clone()]));
        assert!(after(&[op], vec![VmTerm::Hash512([3; 64])]).is_ok());
    }
    for op in [OP::Blake3_256_160, OP::Blake3_256Internal, OP::Blake3_512Internal, OP::Blake3_256_160Internal] {
        assert_eq!(after(&[op], vec![term.clone()]), Err(Verdict::Failure));
    }
    // the cost of a hash is its size
    assert_eq!(run(&script(&[OP::Sha256]), vec![term.clone()], &context(), 32), failure());
    assert_eq!(run(&script(&[OP::Sha256]), vec![term.clone()], &context(), 33), success());
}

#[test]
fn hexadecimal_text_and_utf8() {
    let text = |s: &str| VmTerm::Unsigned8Array(s.as_bytes().to_vec());
    assert_eq!(
        after(&[OP::ToHex], vec![VmTerm::Unsigned8Array(vec![0x01, 0xab, 0xff, 0x00])]),
        Ok(vec![text("01abff00")])
    );
    assert_eq!(after(&[OP::ToHex], vec![VmTerm::Unsigned8Array(vec![])]), Ok(vec![text("")]));
    assert_eq!(after(&[OP::ToHex], vec![VmTerm::Hash160([0; 20])]), Err(Verdict::Failure));
    assert_eq!(
        after(&[OP::FromHex], vec![text("01ABff00")]),
        Ok(vec![VmTerm::Unsigned8Array(vec![0x01, 0xab, 0xff, 0x00])])
    );
    assert_eq!(after(&[OP::FromHex], vec![text("")]), Ok(vec![VmTerm::Unsigned8Array(vec![])]));
    assert_eq!(after(&[OP::FromHex], vec![text("abc")]), Err(Verdict::Failure));
    assert_eq!(after(&[OP::FromHex], vec![text("0g")]), Err(Verdict::Failure));
    assert_eq!(after(&[OP::FromHex], vec![text("0 ")]), Err(Verdict::Failure));
    assert_eq!(after(&[OP::FromHex], vec![VmTerm::Unsigned8(1)]), Err(Verdict::Failure));
    let all: Vec<u8> = (0..=255).collect();
    assert_eq!(
        after(&[OP::ToHex, OP::FromHex], vec![VmTerm::Unsigned8Array(all.clone())]),
        Ok(vec![VmTerm::Unsigned8Array(all)])
    );
    assert_eq!(after(&[OP::IsUTF8], vec![text("héllo wörld ✓")]), Ok(bytes_of(&[1])));
    assert_eq!(after(&[OP::IsUTF8], vec![text("")]), Ok(bytes_of(&[1])));
    assert_eq!(
        after(&[OP::IsUTF8], vec![VmTerm::Unsigned8Array(vec![0xff, 0xfe])]),
        Ok(bytes_of(&[0]))
    );
    assert_eq!(
        after(&[OP::IsUTF8], vec![VmTerm::Unsigned8Array(vec![0xc3])]),
        Ok(bytes_of(&[0]))
    );
    assert_eq!(
        after(&[OP::IsUTF8], vec![VmTerm::Unsigned8Array(vec![0xed, 0xa0, 0x80])]),
        Ok(bytes_of(&[0]))
    );
    assert_eq!(after(&[OP::IsUTF8], vec![VmTerm::Hash160([0x41; 20])]), Err(Verdict::Failure));
}

#[test]
fn arrays_can_be_joined_and_parted() {
    let numbers = |v: &[u16]| VmTerm::Unsigned16Array(v.to_vec());
    assert_eq!(
        after(&[OP::Concat], vec![numbers(&[1, 2]), numbers(&[3])]),
        Ok(vec![numbers(&[1, 2, 3])])
    );
    assert_eq!(after(&[OP::Concat], vec![numbers(&[]), numbers(&[])]), Ok(vec![numbers(&[])]));
    assert_eq!(
        after(
            &[OP::Concat],
            vec![VmTerm::Hash160Array(vec![[1; 20]]), VmTerm::Hash160Array(vec![[2; 20], [3; 20]])]
        ),
        Ok(vec![VmTerm::Hash160Array(vec![[1; 20], [2; 20], [3; 20]])])
    );
    assert_eq!(
        after(
            &[OP::Concat],
            vec![
                VmTerm::SignedBigArray(vec![BigSigned::from_i128(-1)]),
                VmTerm::SignedBigArray(vec![BigSigned::from_i128(1)]),
            ]
        ),
        Ok(vec![VmTerm::SignedBigArray(vec![BigSigned::from_i128(-1), BigSigned::from_i128(1)])])
    );
    assert_eq!(
        after(
            &[OP::Concat],
            vec![
                VmTerm::UnsignedBigArray(vec![BigUnsigned::from_u128(7)]),
                VmTerm::UnsignedBigArray(vec![]),
            ]
        ),
        Ok(vec![VmTerm::UnsignedBigArray(vec![BigUnsigned::from_u128(7)])])
    );
    assert_eq!(
        after(&[OP::Concat], vec![numbers(&[1]), VmTerm::Unsigned8Array(vec![1])]),
        Err(Verdict::Failure)
    );
    assert_eq!(after(&[OP::Concat], vec![numbers(&[1]), VmTerm::Unsigned16(1)]), Err(Verdict::Failure));
    assert_eq!(after(&[OP::Concat], vec![numbers(&[1])]), Err(Verdict::Fault));

    let five = numbers(&[10, 20, 30, 40, 50]);
    assert_eq!(after(&[OP::Left], vec![five.clone(), VmTerm::Unsigned8(2)]), Ok(vec![numbers(&[10, 20])]));
    assert_eq!(after(&[OP::Left], vec![five.clone(), VmTerm::Unsigned8(0)]), Ok(vec![numbers(&[])]));
    assert_eq!(after(&[OP::Left], vec![five.clone(), VmTerm::Unsigned8(5)]), Ok(vec![five.clone()]));
    assert_eq!(after(&[OP::Left], vec![five.clone(), VmTerm::Unsigned8(6)]), Err(Verdict::Failure));
    assert_eq!(after(&[OP::Right], vec![five.clone(), VmTerm::Unsigned8(2)]), Ok(vec![numbers(&[40, 50])]));
    assert_eq!(after(&[OP::Right], vec![five.clone(), VmTerm::Unsigned8(5)]), Ok(vec![five.clone()]));
    assert_eq!(after(&[OP::Right], vec![five.clone(), VmTerm::Unsigned8(6)]), Err(Verdict::Failure));
    assert_eq!(
        after(&[OP::Right], vec![five.clone(), VmTerm::UnsignedBig(BigUnsigned::from_le_bytes(&[1; 30]))]),
        Err(Verdict::Failure)
    );
    assert_eq!(after(&[OP::Left], vec![five.clone(), VmTerm::Signed8(-1)]), Err(Verdict::Failure));
    assert_eq!(after(&[OP::Left], vec![VmTerm::Unsigned16(1), VmTerm::Unsigned8(0)]), Err(Verdict::Failure));
    assert_eq!(
        after(&[OP::Substr], vec![five.clone(), VmTerm::Unsigned8(1), VmTerm::Unsigned8(3)]),
        Ok(vec![numbers(&[20, 30, 40])])
    );
    assert_eq!(
        after(&[OP::Substr], vec![five.clone(), VmTerm::Unsigned8(5), VmTerm::Unsigned8(0)]),
        Ok(vec![numbers(&[])])
    );
    assert_eq!(
        after(&[OP::Substr], vec![five.clone(), VmTerm::Unsigned8(3), VmTerm::Unsigned8(3)]),
        Err(Verdict::Failure)
    );
    assert_eq!(
        after(&[OP::Substr], vec![five.clone(), VmTerm::Unsigned128(u128::MAX), VmTerm::Unsigned128(u128::MAX)]),
        Err(Verdict::Failure)
    );
    assert_eq!(after(&[OP::Substr], vec![five.clone(), VmTerm::Unsigned8(3)]), Err(Verdict::Fault));
    assert_eq!(
        after(
            &[OP::Substr],
            vec![
                VmTerm::Hash256Array(vec![[1; 32], [2; 32], [3; 32]]),
                VmTerm::Unsigned64(1),
                VmTerm::Signed32(1),
            ]
        ),
        Ok(vec![VmTerm::Hash256Array(vec![[2; 32]])])
    );
}

#[test]
fn casts() {
    let cast = |term: VmTerm, tag: u8| after(&[OP::CastTo], vec![term, VmTerm::Unsigned8(tag)]);
    assert_eq!(cast(VmTerm::Unsigned8(200), 0x04), Ok(vec![VmTerm::Unsigned16(200)]));
    assert_eq!(cast(VmTerm::Unsigned8(200), 0x09), Err(Verdict::Failure));
    assert_eq!(cast(VmTerm::Unsigned8(127), 0x09), Ok(vec![VmTerm::Signed8(127)]));
    assert_eq!(cast(VmTerm::Signed8(-1), 0x03), Err(Verdict::Failure));
    assert_eq!(cast(VmTerm::Signed8(-1), 0x0d), Ok(vec![VmTerm::Signed128(-1)]));
    assert_eq!(cast(VmTerm::Signed8(-128), 0x0a), Ok(vec![VmTerm::Signed16(-128)]));
    assert_eq!(cast(VmTerm::Signed16(-128), 0x09), Ok(vec![VmTerm::Signed8(-128)]));
    assert_eq!(cast(VmTerm::Signed16(-129), 0x09), Err(Verdict::Failure));
    assert_eq!(cast(VmTerm::Signed16(128), 0x09), Err(Verdict::Failure));
    assert_eq!(cast(VmTerm::Unsigned128(u128::MAX), 0x07), Ok(vec![VmTerm::Unsigned128(u128::MAX)]));
    assert_eq!(cast(VmTerm::Unsigned128(u128::MAX), 0x0d), Err(Verdict::Failure));
    assert_eq!(cast(VmTerm::Unsigned128(u128::MAX), 0x06), Err(Verdict::Failure));
    assert_eq!(
        cast(VmTerm::Unsigned128(u128::MAX), 0x08),
        Ok(vec![VmTerm::UnsignedBig(BigUnsigned::from_u128(u128::MAX))])
    );
    assert_eq!(
        cast(VmTerm::Signed128(i128::MIN), 0x0e),
        Ok(vec![VmTerm::SignedBig(BigSigned::from_i128(i128::MIN))])
    );
    assert_eq!(
        cast(VmTerm::SignedBig(BigSigned::from_i128(i128::MIN)), 0x0d),
        Ok(vec![VmTerm::Signed128(i128::MIN)])
    );
    assert_eq!(
        cast(VmTerm::SignedBig(BigSigned::from_i128(i64::MIN as i128)), 0x0c),
        Ok(vec![VmTerm::Signed64(i64::MIN)])
    );
    assert_eq!(
        cast(VmTerm::SignedBig(BigSigned::from_i128(i64::MIN as i128 - 1)), 0x0c),
        Err(Verdict::Failure)
    );
    assert_eq!(cast(VmTerm::SignedBig(BigSigned::from_i128(-1)), 0x08), Err(Verdict::Failure));
    assert_eq!(
        cast(VmTerm::SignedBig(BigSigned::zero()), 0x08),
        Ok(vec![VmTerm::UnsignedBig(BigUnsigned::zero())])
    );
    assert_eq!(
        cast(VmTerm::UnsignedBig(BigUnsigned::from_le_bytes(&[1; 17])), 0x07),
        Err(Verdict::Failure)
    );
    assert_eq!(
        cast(VmTerm::UnsignedBig(BigUnsigned::from_u128(65535)), 0x04),
        Ok(vec![VmTerm::Unsigned16(65535)])
    );
    assert_eq!(
        cast(VmTerm::UnsignedBig(BigUnsigned::from_u128(65536)), 0x04),
        Err(Verdict::Failure)
    );
    for tag in [0x0e, 0x0f, 0x10] {
        assert_eq!(
            cast(VmTerm::Unsigned32(5), tag),
            Ok(vec![VmTerm::SignedBig(BigSigned::from_i128(5))])
        );
    }
    // nothing is cast to a hash or to an array, and neither of them is cast
    for tag in [0x00, 0x01, 0x02, 0x11, 0x13, 0x16, 0xff] {
        assert_eq!(cast(VmTerm::Unsigned8(1), tag), Err(Verdict::Failure));
    }
    assert_eq!(cast(VmTerm::Hash160([0; 20]), 0x03), Err(Verdict::Failure));
    assert_eq!(cast(VmTerm::Unsigned8Array(vec![1]), 0x03), Err(Verdict::Failure));
    assert_eq!(
        after(&[OP::CastTo], vec![VmTerm::Unsigned8(1), VmTerm::Unsigned16(0x04)]),
        Err(Verdict::Failure)
    );
    assert_eq!(after(&[OP::CastTo], vec![VmTerm::Unsigned8(1)]), Err(Verdict::Fault));
}

#[test]
fn bits() {
    assert_eq!(after(&[OP::BitXOR], bytes_of(&[0b1100, 0b1010])), Ok(bytes_of(&[0b0110])));
    assert_eq!(
        after(&[OP::BitXOR], vec![VmTerm::Unsigned128(u128::MAX), VmTerm::Unsigned128(1)]),
        Ok(vec![VmTerm::Unsigned128(u128::MAX - 1)])
    );
    assert_eq!(
        after(&[OP::BitXOR], vec![VmTerm::Unsigned16(1), VmTerm::Unsigned8(1)]),
        Err(Verdict::Failure)
    );
    assert_eq!(
        after(&[OP::BitXOR], vec![VmTerm::Signed8(1), VmTerm::Signed8(1)]),
        Err(Verdict::Failure)
    );
    assert_eq!(after(&[OP::BitInvert], bytes_of(&[0b1111_0000])), Ok(bytes_of(&[0b0000_1111])));
    assert_eq!(
        after(&[OP::BitInvert], vec![VmTerm::Unsigned32(0)]),
        Ok(vec![VmTerm::Unsigned32(u32::MAX)])
    );
    assert_eq!(
        after(&[OP::BitInvert], vec![VmTerm::Unsigned128(1)]),
        Ok(vec![VmTerm::Unsigned128(u128::MAX - 1)])
    );
    assert_eq!(
        after(&[OP::BitInvert], vec![VmTerm::UnsignedBig(BigUnsigned::zero())]),
        Err(Verdict::Failure)
    );
    assert_eq!(after(&[OP::BitSHLeft], bytes_of(&[0b1000_0001, 1])), Ok(bytes_of(&[0b0000_0010])));
    assert_eq!(after(&[OP::BitSHLeft], bytes_of(&[1, 7])), Ok(bytes_of(&[0x80])));
    assert_eq!(after(&[OP::BitSHLeft], bytes_of(&[1, 0])), Ok(bytes_of(&[1])));
    assert_eq!(after(&[OP::BitSHLeft], bytes_of(&[1, 8])), Err(Verdict::Failure));
    assert_eq!(
        after(&[OP::BitSHLeft], vec![VmTerm::Unsigned64(3), VmTerm::Unsigned8(63)]),
        Ok(vec![VmTerm::Unsigned64(1 << 63)])
    );
    assert_eq!(
        after(&[OP::BitSHLeft], vec![VmTerm::Unsigned128(3), VmTerm::Unsigned8(127)]),
        Ok(vec![VmTerm::Unsigned128(1 << 127)])
    );
    assert_eq!(
        after(&[OP::BitSHLeft], vec![VmTerm::Unsigned128(3), VmTerm::Unsigned8(128)]),
        Err(Verdict::Failure)
    );
    assert_eq!(after(&[OP::BitSHRight], bytes_of(&[0b1000_0001, 1])), Ok(bytes_of(&[0b0100_0000])));
    assert_eq!(after(&[OP::BitSHRight], bytes_of(&[0x80, 7])), Ok(bytes_of(&[1])));
    assert_eq!(after(&[OP::BitSHRight], bytes_of(&[0x80, 8])), Err(Verdict::Failure));
    assert_eq!(
        after(&[OP::BitSHRight], vec![VmTerm::Unsigned16(0x8000), VmTerm::Unsigned64(15)]),
        Ok(vec![VmTerm::Unsigned16(1)])
    );
    assert_eq!(
        after(&[OP::BitSHRight], vec![VmTerm::Unsigned16(0x8000), VmTerm::Signed8(-1)]),
        Err(Verdict::Failure)
    );
    assert_eq!(
        after(&[OP::BitSHRight], vec![VmTerm::Signed16(4), VmTerm::Unsigned8(1)]),
        Err(Verdict::Failure)
    );
    assert_eq!(after(&[OP::BitSHRight], bytes_of(&[1])), Err(Verdict::Fault));
    assert_eq!(after(&[OP::BitInvert], vec![]), Err(Verdict::Fault));
}

/// The bytes that the machine draws in `context()` after `executed` instructions.
fn drawn_bytes(executed: u64, len: usize) -> Vec<u8> {
    let context = context();
    let mut seed = vec![context.chain_id];
    seed.extend(context.height.to_le_bytes());
    seed.extend(context.timestamp.to_le_bytes());
    seed.extend(context.sequence.to_le_bytes());
    seed.extend(executed.to_le_bytes());
    let mut bytes = vec![0u8; len];
    blake3::Hasher::new_keyed(&context.prev_block_hash)
        .update(&seed)
        .finalize_xof()
        .fill(&mut bytes);
    bytes
}

#[test]
fn pseudo_random_terms() {
    assert_eq!(
        after(&[OP::RandomHash160Var], vec![]),
        Ok(vec![VmTerm::Hash160(drawn_bytes(0, 20).try_into().unwrap())])
    );
    assert_eq!(
        after(&[OP::RandomHash256Var], vec![]),
        Ok(vec![VmTerm::Hash256(drawn_bytes(0, 32).try_into().unwrap())])
    );
    assert_eq!(
        after(&[OP::RandomHash512Var], vec![]),
        Ok(vec![VmTerm::Hash512(drawn_bytes(0, 64).try_into().unwrap())])
    );
    assert_eq!(after(&[OP::RandomUnsigned8], vec![]), Ok(vec![VmTerm::Unsigned8(drawn_bytes(0, 1)[0])]));
    assert_eq!(
        after(&[OP::RandomUnsigned16], vec![]),
        Ok(vec![VmTerm::Unsigned16(u16::from_le_bytes(drawn_bytes(0, 2).try_into().unwrap()))])
    );
    assert_eq!(
        after(&[OP::RandomUnsigned32], vec![]),
        Ok(vec![VmTerm::Unsigned32(u32::from_le_bytes(drawn_bytes(0, 4).try_into().unwrap()))])
    );
    assert_eq!(
        after(&[OP::RandomUnsigned64], vec![]),
        Ok(vec![VmTerm::Unsigned64(u64::from_le_bytes(drawn_bytes(0, 8).try_into().unwrap()))])
    );
    assert_eq!(
        after(&[OP::RandomUnsigned128], vec![]),
        Ok(vec![VmTerm::Unsigned128(u128::from_le_bytes(drawn_bytes(0, 16).try_into().unwrap()))])
    );
    assert_eq!(
        after(&[OP::RandomSigned8], vec![]),
        Ok(vec![VmTerm::Signed8(i8::from_le_bytes(drawn_bytes(0, 1).try_into().unwrap()))])
    );
    assert_eq!(
        after(&[OP::RandomSigned16], vec![]),
        Ok(vec![VmTerm::Signed16(i16::from_le_bytes(drawn_bytes(0, 2).try_into().unwrap()))])
    );
    assert_eq!(
        after(&[OP::RandomSigned32], vec![]),
        Ok(vec![VmTerm::Signed32(i32::from_le_bytes(drawn_bytes(0, 4).try_into().unwrap()))])
    );
    assert_eq!(
        after(&[OP::RandomSigned64], vec![]),
        Ok(vec![VmTerm::Signed64(i64::from_le_bytes(drawn_bytes(0, 8).try_into().unwrap()))])
    );
    assert_eq!(
        after(&[OP::RandomSigned128], vec![]),
        Ok(vec![VmTerm::Signed128(i128::from_le_bytes(drawn_bytes(0, 16).try_into().unwrap()))])
    );
    // a draw depends on its place in the run, and on nothing that changes between runs
    let twice = after(&[OP::RandomUnsigned64, OP::Nop, OP::RandomUnsigned64], vec![]).unwrap();
    assert_eq!(
        twice,
        vec![
            VmTerm::Unsigned64(u64::from_le_bytes(drawn_bytes(0, 8).try_into().unwrap())),
            VmTerm::Unsigned64(u64::from_le_bytes(drawn_bytes(2, 8).try_into().unwrap())),
        ]
    );
    assert_ne!(twice[0], twice[1]);
    assert_eq!(after(&[OP::RandomUnsigned64, OP::Nop, OP::RandomUnsigned64], vec![]).unwrap(), twice);
    let mut elsewhere = context();
    elsewhere.height += 1;
    let there = run(
        &script(&[OP::RandomUnsigned64, OP::PopToScriptOuts, OP::PushOut]),
        vec![],
        &elsewhere,
        LIMIT,
    );
    assert_ne!(there.outputs[0].terms[0], twice[0]);
    assert_eq!(run(&script(&[OP::RandomHash512Var]), vec![], &context(), 64), failure());
    assert_eq!(run(&script(&[OP::RandomHash512Var]), vec![], &context(), 65), success());
}
