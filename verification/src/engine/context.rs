//! What the engine is given and what it gives back.

use vstd::prelude::*;
use crate::model::TermModel;
use crate::term::VmTerm;

verus! {

/// The models of a sequence of terms.
pub open spec fn term_models(terms: Seq<VmTerm>) -> Seq<TermModel> {
    Seq::new(terms.len(), |i: int| terms[i]@)
}

/// Terms that a script stages, with the markers of the output they belong to.
#[derive(Debug, PartialEq, Eq)]
pub struct Output {
    pub terms: Vec<VmTerm>,
    pub coloured: bool,
    pub coinbase: bool,
}

/// An output as mathematics sees it.
pub struct OutputModel {
    pub terms: Seq<TermModel>,
    pub coloured: bool,
    pub coinbase: bool,
}

impl View for Output {
    type V = OutputModel;

    open spec fn view(&self) -> OutputModel {
        OutputModel {
            terms: term_models(self.terms@),
            coloured: self.coloured,
            coinbase: self.coinbase,
        }
    }
}

/// The models of a sequence of outputs.
pub open spec fn output_models(outputs: Seq<Output>) -> Seq<OutputModel> {
    Seq::new(outputs.len(), |i: int| outputs[i]@)
}

/// What a script can read of the chain and of the transaction it is part of. The engine
/// never changes it.
#[derive(Debug, PartialEq, Eq)]
pub struct ExecutionContext {
    pub chain_id: u8,
    pub height: u64,
    pub timestamp: i64,
    pub is_coinbase: bool,
    pub prev_block_hash: [u8; 32],
    pub sequence: u32,
    /// The outputs that the transaction spends, in order.
    pub prev_outputs: Vec<Output>,
}

/// A context as mathematics sees it.
pub struct ContextModel {
    pub chain_id: u8,
    pub height: u64,
    pub timestamp: i64,
    pub is_coinbase: bool,
    pub prev_block_hash: Seq<u8>,
    pub sequence: u32,
    pub prev_outputs: Seq<OutputModel>,
}

impl View for ExecutionContext {
    type V = ContextModel;

    open spec fn view(&self) -> ContextModel {
        ContextModel {
            chain_id: self.chain_id,
            height: self.height,
            timestamp: self.timestamp,
            is_coinbase: self.is_coinbase,
            prev_block_hash: self.prev_block_hash@,
            sequence: self.sequence,
            prev_outputs: output_models(self.prev_outputs@),
        }
    }
}

/// How the run of a script ends.
#[derive(Clone, Copy, Debug, PartialEq, Eq, Structural)]
pub enum Verdict {
    /// The script ran to its end, or returned, and nothing failed.
    Success,
    /// A check of the script did not hold, a calculation had no result, an instruction met
    /// terms it is not for, or the resource limit was passed.
    Failure,
    /// The script is not well formed: a byte is no instruction, an operand is cut short,
    /// the control blocks do not match, or an instruction found too few terms.
    Fault,
}

/// The verdict of a run and the outputs that it staged. Only a successful run has outputs.
#[derive(Debug, PartialEq, Eq)]
pub struct Outcome {
    pub verdict: Verdict,
    pub outputs: Vec<Output>,
}

/// An outcome as mathematics sees it.
pub struct OutcomeModel {
    pub verdict: Verdict,
    pub outputs: Seq<OutputModel>,
}

impl View for Outcome {
    type V = OutcomeModel;

    open spec fn view(&self) -> OutcomeModel {
        OutcomeModel { verdict: self.verdict, outputs: output_models(self.outputs@) }
    }
}

} // verus!
