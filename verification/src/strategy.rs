//! The consensus strategies that a run can be configured with, and the
//! reasons for which one of them yields no producer.

use crate::hashing::HashingScheme;
use vstd::prelude::*;

verus! {

/// Who may produce the next block, and on what condition.
#[derive(Clone, Copy, Debug, PartialEq, Eq, Structural)]
pub enum ConsensusStrategy {
    /// The producer must find a nonce under which the block's hash begins
    /// with `difficulty` zero digits.
    ProofOfWork { difficulty: usize },
    /// The producer is drawn at random, each participant weighted by its
    /// stake.
    ProofOfStake,
    /// The producer is the first of the elected delegates.
    DelegatedProofOfStake,
    /// The producer is the first approved authority.
    ProofOfAuthority,
    /// A block is admitted where a strict majority of the participants is
    /// healthy; the producer is the first healthy one.
    QuorumCheck,
}

impl ConsensusStrategy {
    /// The scheme under which the strategy's blocks are hashed: with the
    /// nonce under proof of work, without it otherwise.
    pub open spec fn scheme(self) -> HashingScheme {
        match self {
            ConsensusStrategy::ProofOfWork { .. } => HashingScheme::WithNonce,
            _ => HashingScheme::WithoutNonce,
        }
    }

    /// The scheme under which the strategy's blocks are hashed.
    pub fn hashing_scheme(&self) -> (scheme: HashingScheme)
        ensures
            scheme == self.scheme(),
    {
        match self {
            ConsensusStrategy::ProofOfWork { .. } => HashingScheme::WithNonce,
            _ => HashingScheme::WithoutNonce,
        }
    }
}

/// Why a strategy has no producer to offer, or refuses a vote.
#[derive(Clone, Copy, Debug, PartialEq, Eq, Structural)]
pub enum ConsensusError {
    /// No participant has any stake.
    NoEligibleValidator,
    /// No delegate has been elected.
    NoDelegatesElected,
    /// No participant is an approved authority.
    NoApprovedAuthority,
    /// The voter is not registered.
    UnknownVoter,
    /// The delegate voted for is not registered.
    UnknownDelegate,
}

} // verus!
