//! The append-only block log. Its first block is the genesis block; every
//! later block names the hash of the one before it and has the next index.

use crate::block::{block_views, is_finalized, Block, BlockView};
use crate::clock::current_timestamp;
use crate::hashing::HashingScheme;
use vstd::prelude::*;
use vstd::string::*;

verus! {

/// Why the chain refused an operation.
#[derive(Clone, Copy, Debug, PartialEq, Eq, Structural)]
pub enum ChainError {
    /// The block does not continue the chain's last block.
    LinkageError,
    /// The chain has no block at all.
    EmptyChainError,
}

/// The root of a chain: index 0, previous hash `"0"`, produced by the
/// reserved identity `"System"`, with one placeholder transaction.
pub open spec fn is_genesis(block: BlockView) -> bool {
    &&& block.index == 0
    &&& block.previous_hash == "0"@
    &&& block.producer == "System"@
    &&& block.transactions == seq!["Genesis Block"@]
}

/// `next` continues `previous`: it names its hash and has the next index.
pub open spec fn follows(previous: BlockView, next: BlockView) -> bool {
    &&& next.previous_hash == previous.hash
    &&& next.index == previous.index + 1
}

/// Every block but the first continues the block before it.
pub open spec fn is_linked(blocks: Seq<BlockView>) -> bool {
    forall|i: int| 0 < i < blocks.len() ==> follows(blocks[i - 1], #[trigger] blocks[i])
}

/// A sequence of blocks is a chain when it starts with a genesis block and
/// is linked throughout.
pub open spec fn is_chain(blocks: Seq<BlockView>) -> bool {
    &&& blocks.len() > 0
    &&& is_genesis(blocks[0])
    &&& is_linked(blocks)
}

/// The ordered sequence of blocks.
pub struct Chain {
    blocks: Vec<Block>,
}

impl View for Chain {
    type V = Seq<BlockView>;

    closed spec fn view(&self) -> Seq<BlockView> {
        block_views(self.blocks@)
    }
}

impl Chain {
    /// A chain is well formed when its blocks are a chain.
    pub open spec fn wf(&self) -> bool {
        is_chain(self@)
    }

    /// A chain that holds only a genesis block with the given creation
    /// time, finalized under `scheme`.
    pub fn rooted_at(timestamp: String, scheme: HashingScheme) -> (chain: Chain)
        ensures
            chain.wf(),
            chain@.len() == 1,
            chain@[0].timestamp == timestamp@,
            chain@[0].nonce == 0,
            is_finalized(chain@[0], scheme),
    {
        let mut transactions: Vec<String> = Vec::new();
        transactions.push(String::from_str("Genesis Block"));
        let mut genesis = Block::with_timestamp(
            0,
            timestamp,
            String::from_str("0"),
            transactions,
            String::from_str("System"),
        );
        assert(genesis@.transactions =~= seq!["Genesis Block"@]);
        genesis.finalize_block(scheme);
        let mut blocks: Vec<Block> = Vec::new();
        blocks.push(genesis);
        let chain = Chain { blocks };
        assert(chain@[0] == genesis@);
        chain
    }

    /// A chain that holds only a genesis block created now.
    pub fn new(scheme: HashingScheme) -> (chain: Chain)
        ensures
            chain.wf(),
            chain@.len() == 1,
            chain@[0].nonce == 0,
            is_finalized(chain@[0], scheme),
    {
        Chain::rooted_at(current_timestamp(), scheme)
    }

    /// The number of blocks.
    pub fn len(&self) -> (count: usize)
        ensures
            count == self@.len(),
    {
        self.blocks.len()
    }

    /// The last block, or `EmptyChainError` where there is none.
    pub fn tail(&self) -> (result: Result<&Block, ChainError>)
        ensures
            match result {
                Ok(block) => self@.len() > 0 && block@ == self@.last(),
                Err(error) => self@.len() == 0 && error == ChainError::EmptyChainError,
            },
    {
        let count = self.blocks.len();
        if count == 0 {
            Err(ChainError::EmptyChainError)
        } else {
            Ok(&self.blocks[count - 1])
        }
    }

    /// The blocks in order, for reading.
    pub fn iterate(&self) -> (blocks: &Vec<Block>)
        ensures
            block_views(blocks@) == self@,
    {
        &self.blocks
    }

    /// Appends `block` if it continues the last block, and refuses it
    /// otherwise. Nothing else about the block is examined.
    pub fn append(&mut self, block: Block) -> (result: Result<(), ChainError>)
        ensures
            match result {
                Ok(()) => {
                    &&& old(self)@.len() > 0
                    &&& follows(old(self)@.last(), block@)
                    &&& final(self)@ == old(self)@.push(block@)
                },
                Err(ChainError::EmptyChainError) => {
                    &&& old(self)@.len() == 0
                    &&& final(self)@ == old(self)@
                },
                Err(ChainError::LinkageError) => {
                    &&& old(self)@.len() > 0
                    &&& !follows(old(self)@.last(), block@)
                    &&& final(self)@ == old(self)@
                },
            },
            old(self).wf() ==> final(self).wf(),
    {
        let count = self.blocks.len();
        if count == 0 {
            return Err(ChainError::EmptyChainError);
        }
        let tail = &self.blocks[count - 1];
        assert(tail@ == self@.last());
        if tail.index == u64::MAX || block.index != tail.index + 1
            || block.previous_hash != tail.hash {
            return Err(ChainError::LinkageError);
        }
        self.blocks.push(block);
        assert(self@ =~= old(self)@.push(block@));
        Ok(())
    }
}

/// In a well-formed chain every block after the first names the hash of
/// the block before it and has the next index.
pub proof fn lemma_adjacent_blocks_linked(blocks: Seq<BlockView>, i: int)
    requires
        is_chain(blocks),
        0 < i < blocks.len(),
    ensures
        blocks[i].previous_hash == blocks[i - 1].hash,
        blocks[i].index == blocks[i - 1].index + 1,
{
}

/// In a well-formed chain a block's index is its position.
pub proof fn lemma_index_is_position(blocks: Seq<BlockView>, i: int)
    requires
        is_chain(blocks),
        0 <= i < blocks.len(),
    ensures
        blocks[i].index == i,
    decreases i,
{
    if i > 0 {
        lemma_index_is_position(blocks, i - 1);
    }
}

/// A chain stays a chain when a block that continues its last block is
/// appended.
pub proof fn lemma_appended_chain(blocks: Seq<BlockView>, block: BlockView)
    requires
        is_chain(blocks),
        follows(blocks.last(), block),
    ensures
        is_chain(blocks.push(block)),
{
    let longer = blocks.push(block);
    assert forall|i: int| 0 < i < longer.len() implies follows(
        longer[i - 1],
        #[trigger] longer[i],
    ) by {
        if i < blocks.len() {
            assert(follows(blocks[i - 1], blocks[i]));
        }
    }
}

} // verus!
