//! A simulation core for comparing block-chain consensus strategies over a
//! shared append-only block log.
//!
//! A [`blockchain::Blockchain`] holds the chain, the pending transactions,
//! the registry of participants and the active strategy. A tick asks the
//! strategy for a producer and, where there is one, makes the pending
//! transactions into the next block. The strategies are proof of work,
//! proof of stake, delegated proof of stake, proof of authority and a
//! quorum check over the participants' health flags.
//!
//! The state is meant to live behind one lock; this crate holds no lock
//! and starts no task of its own.

pub mod block;
pub mod blockchain;
pub mod chain;
mod clock;
pub mod delegated_stake;
pub mod hashing;
pub mod pool;
pub mod proof_of_authority;
pub mod proof_of_stake;
pub mod proof_of_work;
pub mod quorum;
pub mod random;
pub mod registry;
pub mod strategy;
pub mod text;
