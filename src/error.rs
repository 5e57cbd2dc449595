//! The errors that block assembly and mutation report.
use vstd::prelude::*;

verus! {

/// Why a block could not be built.
#[derive(Clone, Copy, Debug, PartialEq, Eq, Structural)]
pub enum BlockError {
    /// A resolved header field does not fit its type, or the difficulty bits
    /// do not encode a usable target.
    InvalidTemplateField,
    /// No nonce makes the header hash meet its target.
    ProofOfWorkExhausted,
    /// A mutation was asked for without the transactions it needs.
    MutationPrecondition,
    /// The coinbase lacks the output or the 32-byte witness item that the
    /// witness commitment needs.
    CommitmentComputationError,
}

impl BlockError {
    /// A short description of the error.
    pub fn describe(&self) -> (r: &'static str) {
        match self {
            BlockError::InvalidTemplateField => "invalid template field",
            BlockError::ProofOfWorkExhausted => "proof-of-work nonce space exhausted",
            BlockError::MutationPrecondition => "mutation precondition not met",
            BlockError::CommitmentComputationError => "witness commitment cannot be computed",
        }
    }
}

} // verus!
