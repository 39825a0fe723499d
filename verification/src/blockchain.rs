//! The aggregate that a run shares: the chain, the pending transactions,
//! the registry, the elected delegates and the active strategy. A tick
//! turns the pending transactions into the next block where the strategy
//! allows it, and changes nothing where it does not.

use crate::block::{
    block_hash, block_views, is_finalized, lemma_hash_is_function_of_fields, Block, BlockView,
};
use crate::chain::{
    follows, is_chain, lemma_appended_chain, lemma_index_is_position, Chain, ChainError,
};
use crate::clock::current_timestamp;
use crate::delegated_stake;
use crate::delegated_stake::{after_vote, is_election, vote_fits};
use crate::hashing::HashingScheme;
use crate::pool::TransactionPool;
use crate::proof_of_authority;
use crate::proof_of_authority::{has_authority, is_first_authority};
use crate::proof_of_stake;
use crate::proof_of_stake::{is_weighted_pick, total_stake};
use crate::proof_of_work::{is_mined_from, is_valid_work, lemma_mined_block_is_valid, nonce_solves};
use crate::quorum;
use crate::quorum::{has_healthy, has_quorum, is_first_healthy};
use crate::random::RandomSource;
use crate::registry::{
    has_name, names_distinct, upserted, Authority, Node, NodeView, ValidatorRegistry,
};
use crate::strategy::{ConsensusError, ConsensusStrategy};
use crate::text::texts;
use vstd::pervasive::unreached;
use vstd::prelude::*;
use vstd::string::*;

verus! {

/// How a tick ended.
#[derive(Clone, Copy, Debug, PartialEq, Eq, Structural)]
pub enum TickOutcome {
    /// The pending transactions were made into a block and appended.
    Finalized,
    /// No transaction was pending.
    NothingPending,
    /// The quorum check admitted none of the pending transactions.
    NoQuorum,
    /// The strategy had no producer to offer.
    NoProducer(ConsensusError),
    /// No nonce gives the block a hash that meets the difficulty.
    NoNonceFound,
}

/// The shared state of a run.
pub struct Blockchain {
    chain: Chain,
    pool: TransactionPool,
    registry: ValidatorRegistry,
    delegates: Vec<String>,
    strategy: ConsensusStrategy,
    source: RandomSource,
}

/// What the shared state holds, as plain values.
pub struct BlockchainView {
    /// The blocks, genesis first.
    pub chain: Seq<BlockView>,
    /// The pending transactions, oldest first.
    pub pending: Seq<Seq<char>>,
    /// The registry entries, in registration order.
    pub nodes: Seq<NodeView>,
    /// The delegates of the last election, in rank order.
    pub delegates: Seq<Seq<char>>,
    /// The active strategy.
    pub strategy: ConsensusStrategy,
}

impl View for Blockchain {
    type V = BlockchainView;

    closed spec fn view(&self) -> BlockchainView {
        BlockchainView {
            chain: self.chain@,
            pending: self.pool@,
            nodes: self.registry@,
            delegates: texts(self.delegates@),
            strategy: self.strategy,
        }
    }
}

/// Why the active strategy has no producer to offer, if it has none.
pub open spec fn producer_error(state: BlockchainView) -> Option<ConsensusError> {
    match state.strategy {
        ConsensusStrategy::ProofOfStake => if total_stake(state.nodes) == 0 {
            Some(ConsensusError::NoEligibleValidator)
        } else {
            None
        },
        ConsensusStrategy::DelegatedProofOfStake => if state.delegates.len() == 0 {
            Some(ConsensusError::NoDelegatesElected)
        } else {
            None
        },
        ConsensusStrategy::ProofOfAuthority => if has_authority(state.nodes) {
            None
        } else {
            Some(ConsensusError::NoApprovedAuthority)
        },
        _ => None,
    }
}

/// Whether the active strategy allows `name` to produce the next block.
/// Under proof of work that is the fixed identity `"Validator"`; under
/// proof of stake, the pick for some draw below the total stake; under
/// delegated proof of stake, the first delegate; under proof of authority,
/// the first approved authority; under the quorum check, the first healthy
/// participant, or `"System"` where there is none.
pub open spec fn may_produce(state: BlockchainView, name: Seq<char>) -> bool {
    match state.strategy {
        ConsensusStrategy::ProofOfWork { .. } => name == "Validator"@,
        ConsensusStrategy::ProofOfStake => exists|draw: nat, i: int|
            {
                &&& draw < total_stake(state.nodes)
                &&& #[trigger] is_weighted_pick(state.nodes, draw, i)
                &&& name == state.nodes[i].name
            },
        ConsensusStrategy::DelegatedProofOfStake => state.delegates.len() > 0 && name
            == state.delegates[0],
        ConsensusStrategy::ProofOfAuthority => exists|i: int| #[trigger]
            is_first_authority(state.nodes, i) && name == state.nodes[i].name,
        ConsensusStrategy::QuorumCheck => if has_healthy(state.nodes) {
            exists|i: int|
                #[trigger] is_first_healthy(state.nodes, i) && name == state.nodes[i].name
        } else {
            name == "System"@
        },
    }
}

/// The block that a tick sets out to finalize: it continues the last
/// block and holds every pending transaction.
pub open spec fn candidate_block(
    state: BlockchainView,
    producer: Seq<char>,
    timestamp: Seq<char>,
) -> BlockView {
    BlockView {
        index: (state.chain.last().index + 1) as u64,
        timestamp,
        previous_hash: state.chain.last().hash,
        transactions: state.pending,
        nonce: 0,
        hash: Seq::empty(),
        producer,
    }
}

/// Why no block can be made of the pending transactions, if none can:
/// nothing is pending; or the quorum check admits nothing; or, under proof
/// of work, no nonce meets the difficulty.
pub open spec fn refusal(
    state: BlockchainView,
    producer: Seq<char>,
    timestamp: Seq<char>,
) -> Option<TickOutcome> {
    if state.pending.len() == 0 {
        Some(TickOutcome::NothingPending)
    } else {
        match state.strategy {
            ConsensusStrategy::QuorumCheck => if has_quorum(state.nodes) {
                None
            } else {
                Some(TickOutcome::NoQuorum)
            },
            ConsensusStrategy::ProofOfWork { difficulty } => if difficulty <= 64 && exists|n: u64|
                nonce_solves(candidate_block(state, producer, timestamp), n, difficulty as nat) {
                None
            } else {
                Some(TickOutcome::NoNonceFound)
            },
            _ => None,
        }
    }
}

/// `block` is the candidate, finalized as the strategy asks: mined under
/// proof of work, and hashed without a nonce otherwise.
pub open spec fn is_next_block(
    state: BlockchainView,
    producer: Seq<char>,
    timestamp: Seq<char>,
    block: BlockView,
) -> bool {
    let candidate = candidate_block(state, producer, timestamp);
    match state.strategy {
        ConsensusStrategy::ProofOfWork { difficulty } => is_mined_from(
            candidate,
            difficulty as nat,
            block,
        ),
        _ => block == BlockView {
            hash: block_hash(candidate, HashingScheme::WithoutNonce),
            ..candidate
        },
    }
}

/// `after` is `before` with the next block appended and nothing pending.
pub open spec fn is_finalized_from(
    before: BlockchainView,
    producer: Seq<char>,
    timestamp: Seq<char>,
    after: BlockchainView,
) -> bool {
    &&& after.chain.len() == before.chain.len() + 1
    &&& is_next_block(before, producer, timestamp, after.chain.last())
    &&& after == BlockchainView {
        chain: before.chain.push(after.chain.last()),
        pending: Seq::empty(),
        ..before
    }
}

/// `blocks` is a snapshot of the chain.
pub open spec fn is_snapshot(state: BlockchainView, blocks: Seq<BlockView>) -> bool {
    blocks == state.chain
}

/// Two snapshots of one state are the same sequence.
pub proof fn lemma_snapshots_agree(
    state: BlockchainView,
    first: Seq<BlockView>,
    second: Seq<BlockView>,
)
    requires
        is_snapshot(state, first),
        is_snapshot(state, second),
    ensures
        first == second,
{
}

/// What finalizing makes of a state, for a given producer and creation
/// time: where a block can be made, the state with that block appended
/// and nothing pending; and where none can, the state as it was, with the
/// reason.
pub open spec fn is_finalization_of(
    before: BlockchainView,
    producer: Seq<char>,
    timestamp: Seq<char>,
    outcome: TickOutcome,
    after: BlockchainView,
) -> bool {
    match refusal(before, producer, timestamp) {
        Some(reason) => outcome == reason && after == before,
        None => outcome == TickOutcome::Finalized && is_finalized_from(
            before,
            producer,
            timestamp,
            after,
        ),
    }
}

/// What one tick makes of a state. With nothing pending, or with no
/// producer to be had, the state stays as it was. Otherwise the tick is a
/// finalization by a producer that the strategy allows, at some time.
pub open spec fn is_tick(
    before: BlockchainView,
    outcome: TickOutcome,
    after: BlockchainView,
) -> bool {
    if before.pending.len() == 0 {
        outcome == TickOutcome::NothingPending && after == before
    } else {
        match producer_error(before) {
            Some(error) => outcome == TickOutcome::NoProducer(error) && after == before,
            None => exists|producer: Seq<char>, timestamp: Seq<char>|
                may_produce(before, producer) && #[trigger] is_finalization_of(
                    before,
                    producer,
                    timestamp,
                    outcome,
                    after,
                ),
        }
    }
}

/// Finalizing either appends a block or changes nothing. Where it
/// appends, the pool is empty afterwards, and the chain is longer by one block, which
/// continues the block before it, holds exactly the transactions that
/// were pending, carries the hash of its own fields, and under proof of
/// work is valid work. Where it does not, chain, pool, registry and
/// delegates are as before.
pub proof fn lemma_finalization_appends_or_keeps(
    before: BlockchainView,
    producer: Seq<char>,
    timestamp: Seq<char>,
    outcome: TickOutcome,
    after: BlockchainView,
)
    requires
        is_chain(before.chain),
        before.chain.last().index < u64::MAX,
        is_finalization_of(before, producer, timestamp, outcome, after),
    ensures
        outcome != TickOutcome::Finalized ==> after == before,
        outcome == TickOutcome::Finalized ==> {
            &&& before.pending.len() > 0
            &&& after.pending.len() == 0
            &&& after.chain == before.chain.push(after.chain.last())
            &&& is_chain(after.chain)
            &&& follows(before.chain.last(), after.chain.last())
            &&& after.chain.last().transactions == before.pending
            &&& after.chain.last().producer == producer
            &&& after.chain.last().timestamp == timestamp
            &&& is_finalized(after.chain.last(), before.strategy.scheme())
            &&& before.strategy matches ConsensusStrategy::ProofOfWork { difficulty }
                ==> is_valid_work(after.chain.last(), difficulty as nat)
        },
{
    if outcome == TickOutcome::Finalized {
        let block = after.chain.last();
        lemma_appended_chain(before.chain, block);
        let candidate = candidate_block(before, producer, timestamp);
        if let ConsensusStrategy::ProofOfWork { difficulty } = before.strategy {
            lemma_mined_block_is_valid(candidate, difficulty as nat, block);
        } else {
            lemma_hash_is_function_of_fields(block, candidate, HashingScheme::WithoutNonce);
        }
    }
}

/// A tick that does not finalize leaves the pool, and all else, as it
/// was; one that finalizes empties the pool into the chain's new last
/// block, which continues the block before it.
pub proof fn lemma_tick_keeps_pool_or_drains_it(
    before: BlockchainView,
    outcome: TickOutcome,
    after: BlockchainView,
)
    requires
        is_chain(before.chain),
        before.chain.last().index < u64::MAX,
        is_tick(before, outcome, after),
    ensures
        outcome != TickOutcome::Finalized ==> after == before,
        outcome == TickOutcome::Finalized ==> {
            &&& after.pending.len() == 0
            &&& after.chain == before.chain.push(after.chain.last())
            &&& is_chain(after.chain)
            &&& after.chain.last().transactions == before.pending
            &&& may_produce(before, after.chain.last().producer)
            &&& after.nodes == before.nodes
            &&& after.delegates == before.delegates
            &&& after.strategy == before.strategy
        },
{
    if outcome == TickOutcome::Finalized {
        let (producer, timestamp) = choose|producer: Seq<char>, timestamp: Seq<char>|
            may_produce(before, producer) && #[trigger] is_finalization_of(
                before,
                producer,
                timestamp,
                outcome,
                after,
            );
        lemma_finalization_appends_or_keeps(before, producer, timestamp, outcome, after);
    } else if before.pending.len() > 0 && producer_error(before) is None {
        let (producer, timestamp) = choose|producer: Seq<char>, timestamp: Seq<char>|
            may_produce(before, producer) && #[trigger] is_finalization_of(
                before,
                producer,
                timestamp,
                outcome,
                after,
            );
        lemma_finalization_appends_or_keeps(before, producer, timestamp, outcome, after);
    }
}

/// Except under proof of work, whether a tick finalizes is decided by the
/// state alone: neither the producer nor the time has a say.
pub proof fn lemma_refusal_without_search(
    state: BlockchainView,
    producer: Seq<char>,
    timestamp: Seq<char>,
)
    requires
        !(state.strategy is ProofOfWork),
    ensures
        refusal(state, producer, timestamp) == if state.pending.len() == 0 {
            Some(TickOutcome::NothingPending)
        } else if state.strategy == ConsensusStrategy::QuorumCheck && !has_quorum(state.nodes) {
            Some(TickOutcome::NoQuorum)
        } else {
            None
        },
{
}

impl Blockchain {
    /// The state is well formed when its blocks are a chain and no two
    /// registry entries share a name.
    pub open spec fn wf(&self) -> bool {
        &&& is_chain(self@.chain)
        &&& names_distinct(self@.nodes)
    }

    /// A run that starts with a genesis block of the given creation time,
    /// an empty pool, an empty registry and no delegates.
    pub fn with_genesis(
        strategy: ConsensusStrategy,
        timestamp: String,
        source: RandomSource,
    ) -> (state: Blockchain)
        ensures
            state.wf(),
            state@.chain.len() == 1,
            state@.chain[0].timestamp == timestamp@,
            state@.chain[0].nonce == 0,
            state@.chain[0].hash == block_hash(state@.chain[0], strategy.scheme()),
            state@.pending == Seq::<Seq<char>>::empty(),
            state@.nodes == Seq::<NodeView>::empty(),
            state@.delegates == Seq::<Seq<char>>::empty(),
            state@.strategy == strategy,
    {
        let state = Blockchain {
            chain: Chain::rooted_at(timestamp, strategy.hashing_scheme()),
            pool: TransactionPool::new(),
            registry: ValidatorRegistry::new(),
            delegates: Vec::new(),
            strategy,
            source,
        };
        assert(state@.delegates =~= Seq::<Seq<char>>::empty());
        state
    }

    /// A run that starts now, with a random source seeded by the system.
    pub fn new(strategy: ConsensusStrategy) -> (state: Blockchain)
        ensures
            state.wf(),
            state@.chain.len() == 1,
            state@.chain[0].nonce == 0,
            state@.chain[0].hash == block_hash(state@.chain[0], strategy.scheme()),
            state@.pending == Seq::<Seq<char>>::empty(),
            state@.nodes == Seq::<NodeView>::empty(),
            state@.delegates == Seq::<Seq<char>>::empty(),
            state@.strategy == strategy,
    {
        Blockchain::with_genesis(strategy, current_timestamp(), RandomSource::from_entropy())
    }

    /// Makes `strategy` the active strategy.
    pub fn configure_consensus(&mut self, strategy: ConsensusStrategy)
        ensures
            final(self)@ == (BlockchainView { strategy, ..old(self)@ }),
    {
        self.strategy = strategy;
    }

    /// The active strategy.
    pub fn strategy(&self) -> (strategy: ConsensusStrategy)
        ensures
            strategy == self@.strategy,
    {
        self.strategy
    }

    /// The chain, for reading.
    pub fn chain(&self) -> (chain: &Chain)
        ensures
            chain@ == self@.chain,
    {
        &self.chain
    }

    /// The registry, for reading.
    pub fn registry(&self) -> (registry: &ValidatorRegistry)
        ensures
            registry@ == self@.nodes,
    {
        &self.registry
    }

    /// The delegates of the last election, for reading.
    pub fn delegates(&self) -> (delegates: &Vec<String>)
        ensures
            texts(delegates@) == self@.delegates,
    {
        &self.delegates
    }

    /// A copy of the pending transactions, oldest first.
    pub fn pending_transactions(&self) -> (pending: Vec<String>)
        ensures
            texts(pending@) == self@.pending,
    {
        self.pool.snapshot()
    }

    /// A copy of the chain as it stands.
    pub fn snapshot_chain(&self) -> (blocks: Vec<Block>)
        ensures
            is_snapshot(self@, block_views(blocks@)),
    {
        let source = self.chain.iterate();
        let mut blocks: Vec<Block> = Vec::new();
        let mut i: usize = 0;
        while i < source.len()
            invariant
                i <= source@.len(),
                blocks@.len() == i,
                forall|j: int| 0 <= j < i ==> (#[trigger] blocks@[j])@ == source@[j]@,
            decreases source@.len() - i,
        {
            blocks.push(source[i].clone());
            i += 1;
        }
        assert(block_views(blocks@) =~= block_views(source@));
        blocks
    }

    /// Registers a participant; see `ValidatorRegistry::register`.
    pub fn register_node(&mut self, node: Node)
        requires
            old(self).wf(),
        ensures
            final(self).wf(),
            final(self)@ == (BlockchainView {
                nodes: upserted(old(self)@.nodes, node@),
                ..old(self)@
            }),
    {
        self.registry.register(node);
    }

    /// Registers an authority as a participant with no stake.
    pub fn register_authority(&mut self, authority: Authority)
        requires
            old(self).wf(),
        ensures
            final(self).wf(),
            final(self)@ == (BlockchainView {
                nodes: upserted(old(self)@.nodes, authority.entry()),
                ..old(self)@
            }),
    {
        self.registry.register(authority.into_node());
    }

    /// Adds a transaction behind those already pending.
    pub fn add_transaction(&mut self, transaction: String)
        ensures
            final(self)@ == (BlockchainView {
                pending: old(self)@.pending.push(transaction@),
                ..old(self)@
            }),
    {
        self.pool.submit(transaction);
    }

    /// Counts a vote; see `delegated_stake::vote`.
    pub fn vote_for_delegate(
        &mut self,
        voter: &str,
        delegate: &str,
    ) -> (result: Result<(), ConsensusError>)
        requires
            old(self).wf(),
            vote_fits(old(self)@.nodes, voter@, delegate@),
        ensures
            final(self).wf(),
            match result {
                Ok(()) => {
                    &&& has_name(old(self)@.nodes, voter@)
                    &&& has_name(old(self)@.nodes, delegate@)
                    &&& final(self)@ == (BlockchainView {
                        nodes: after_vote(old(self)@.nodes, voter@, delegate@),
                        ..old(self)@
                    })
                },
                Err(ConsensusError::UnknownVoter) => {
                    &&& !has_name(old(self)@.nodes, voter@)
                    &&& final(self)@ == old(self)@
                },
                Err(ConsensusError::UnknownDelegate) => {
                    &&& has_name(old(self)@.nodes, voter@)
                    &&& !has_name(old(self)@.nodes, delegate@)
                    &&& final(self)@ == old(self)@
                },
                Err(_) => false,
            },
    {
        delegated_stake::vote(&mut self.registry, voter, delegate)
    }

    /// Whether the vote can be counted without overflowing the delegate's
    /// tally.
    pub fn vote_would_fit(&self, voter: &str, delegate: &str) -> (fits: bool)
        requires
            self.wf(),
        ensures
            fits == vote_fits(self@.nodes, voter@, delegate@),
    {
        delegated_stake::vote_would_fit(&self.registry, voter, delegate)
    }

    /// Holds an election and seats its delegates in place of the earlier
    /// ones; see `delegated_stake::elect`.
    pub fn elect_delegates(&mut self, num_delegates: usize)
        ensures
            is_election(old(self)@.nodes, num_delegates as nat, final(self)@.delegates),
            final(self)@ == (BlockchainView { delegates: final(self)@.delegates, ..old(self)@ }),
    {
        self.delegates = delegated_stake::elect(&self.registry, num_delegates);
    }

    /// The verdict of the quorum check on a transaction.
    pub fn validate_transaction(&self, transaction: &str) -> (admitted: bool)
        ensures
            admitted == has_quorum(self@.nodes),
    {
        quorum::validate(transaction, &self.registry)
    }

    /// Names the producer of the next block as the active strategy has it,
    /// or says why there is none. Under proof of stake the producer is
    /// drawn from the random source; every other strategy decides by the
    /// state alone.
    pub fn select_validator(&mut self) -> (result: Result<String, ConsensusError>)
        ensures
            final(self)@ == old(self)@,
            match result {
                Ok(name) => producer_error(old(self)@) is None && may_produce(old(self)@, name@),
                Err(error) => producer_error(old(self)@) == Some(error),
            },
    {
        match self.strategy {
            ConsensusStrategy::ProofOfWork { .. } => Ok(String::from_str("Validator")),
            ConsensusStrategy::ProofOfStake => proof_of_stake::select_producer(
                &self.registry,
                &mut self.source,
            ),
            ConsensusStrategy::DelegatedProofOfStake => delegated_stake::select_producer(
                &self.delegates,
            ),
            ConsensusStrategy::ProofOfAuthority => proof_of_authority::select_producer(
                &self.registry,
            ),
            ConsensusStrategy::QuorumCheck => Ok(quorum::select_producer(&self.registry)),
        }
    }

    /// Appends a block that continues the chain, and refuses any other.
    pub fn add_block_to_chain(&mut self, block: Block) -> (result: Result<(), ChainError>)
        requires
            old(self).wf(),
        ensures
            final(self).wf(),
            match result {
                Ok(()) => {
                    &&& follows(old(self)@.chain.last(), block@)
                    &&& final(self)@ == (BlockchainView {
                        chain: old(self)@.chain.push(block@),
                        ..old(self)@
                    })
                },
                Err(error) => {
                    &&& error == ChainError::LinkageError
                    &&& !follows(old(self)@.chain.last(), block@)
                    &&& final(self)@ == old(self)@
                },
            },
    {
        self.chain.append(block)
    }

    /// Makes the pending transactions into the next block, produced by
    /// `producer` at `timestamp`, and appends it; or changes nothing and
    /// says why. The caller answers for the producer.
    pub fn finalize_with(&mut self, producer: String, timestamp: String) -> (outcome: TickOutcome)
        requires
            old(self).wf(),
        ensures
            final(self).wf(),
            is_finalization_of(old(self)@, producer@, timestamp@, outcome, final(self)@),
    {
        if self.pool.is_empty() {
            return TickOutcome::NothingPending;
        }
        let pending = self.pool.snapshot();
        let transactions = match self.strategy {
            ConsensusStrategy::QuorumCheck => quorum::admitted_transactions(
                &pending,
                &self.registry,
            ),
            _ => pending,
        };
        assert(texts(transactions@).len() == transactions@.len());
        assert(texts(pending@).len() == pending@.len());
        if transactions.len() == 0 {
            return TickOutcome::NoQuorum;
        }
        assert(texts(transactions@) == old(self)@.pending);
        let count = self.chain.len();
        proof {
            lemma_index_is_position(self@.chain, count - 1);
        }
        let (index, previous_hash) = match self.chain.tail() {
            Ok(tail) => (tail.index + 1, tail.hash.clone()),
            Err(_) => unreached(),
        };
        let mut block =
            Block::with_timestamp(index, timestamp, previous_hash, transactions, producer);
        assert(block@ == candidate_block(old(self)@, producer@, timestamp@));
        match self.strategy {
            ConsensusStrategy::ProofOfWork { difficulty } => {
                if !block.mine_block(difficulty) {
                    return TickOutcome::NoNonceFound;
                }
            },
            _ => {
                block.finalize_block(HashingScheme::WithoutNonce);
            },
        }
        let ghost appended = block@;
        match self.chain.append(block) {
            Ok(()) => {},
            Err(_) => unreached(),
        }
        let _ = self.pool.drain_all();
        assert(self@.chain.last() == appended);
        TickOutcome::Finalized
    }

    /// One tick: where transactions are pending and the active strategy
    /// names a producer, makes them into the next block, created now; and
    /// otherwise changes nothing and says why.
    pub fn finalize_pending_transactions(&mut self) -> (outcome: TickOutcome)
        requires
            old(self).wf(),
        ensures
            final(self).wf(),
            is_tick(old(self)@, outcome, final(self)@),
    {
        if self.pool.is_empty() {
            return TickOutcome::NothingPending;
        }
        match self.select_validator() {
            Err(error) => TickOutcome::NoProducer(error),
            Ok(producer) => {
                let timestamp = current_timestamp();
                let outcome = self.finalize_with(producer, timestamp);
                assert(is_finalization_of(old(self)@, producer@, timestamp@, outcome, self@));
                assert(may_produce(old(self)@, producer@));
                outcome
            },
        }
    }
}

} // verus!
