//! The unit of the chain: a record of transactions that names its
//! predecessor by hash and carries the hash of its own fields.

use crate::clock::current_timestamp;
use crate::hashing::{hash_text, is_lower_hex, text_hash, HashingScheme};
use crate::text::{append_decimal, concat_all, copy_texts, decimal_text, texts};
use vstd::prelude::*;
use vstd::string::*;

verus! {

/// One block of the chain.
#[derive(Debug, PartialEq, Eq)]
pub struct Block {
    /// Position in the chain, counted from 0.
    pub index: u64,
    /// When the block was created.
    pub timestamp: String,
    /// The hash of the block before this one; `"0"` for the first block.
    pub previous_hash: String,
    /// The transactions the block records, in order.
    pub transactions: Vec<String>,
    /// The number found by a nonce search; 0 where none was made.
    pub nonce: u64,
    /// The hash of the other fields, once the block is finalized.
    pub hash: String,
    /// Who produced the block.
    pub producer: String,
}

/// What a block holds, as plain values.
pub struct BlockView {
    pub index: u64,
    pub timestamp: Seq<char>,
    pub previous_hash: Seq<char>,
    pub transactions: Seq<Seq<char>>,
    pub nonce: u64,
    pub hash: Seq<char>,
    pub producer: Seq<char>,
}

impl View for Block {
    type V = BlockView;

    open spec fn view(&self) -> BlockView {
        BlockView {
            index: self.index,
            timestamp: self.timestamp@,
            previous_hash: self.previous_hash@,
            transactions: texts(self.transactions@),
            nonce: self.nonce,
            hash: self.hash@,
            producer: self.producer@,
        }
    }
}

/// The views of a sequence of blocks.
pub open spec fn block_views(blocks: Seq<Block>) -> Seq<BlockView> {
    Seq::new(blocks.len(), |i: int| blocks[i]@)
}

/// The text that is hashed: index, timestamp, previous hash, producer, the
/// nonce where the scheme has one, and the transactions, with nothing
/// between them.
pub open spec fn canonical_text(block: BlockView, scheme: HashingScheme) -> Seq<char> {
    decimal_text(block.index as nat) + block.timestamp + block.previous_hash + block.producer
        + match scheme {
        HashingScheme::WithNonce => decimal_text(block.nonce as nat),
        HashingScheme::WithoutNonce => Seq::empty(),
    } + concat_all(block.transactions)
}

/// The hash that a block's fields call for.
pub open spec fn block_hash(block: BlockView, scheme: HashingScheme) -> Seq<char> {
    text_hash(canonical_text(block, scheme))
}

/// A block is finalized when it carries the hash of its own fields.
pub open spec fn is_finalized(block: BlockView, scheme: HashingScheme) -> bool {
    block.hash == block_hash(block, scheme)
}

/// The hash is a function of the canonical fields alone: two blocks that
/// agree on them have the same hash, whatever hash they carry, and
/// whatever nonce where the scheme leaves it out.
pub proof fn lemma_hash_is_function_of_fields(a: BlockView, b: BlockView, scheme: HashingScheme)
    requires
        a.index == b.index,
        a.timestamp == b.timestamp,
        a.previous_hash == b.previous_hash,
        a.producer == b.producer,
        a.transactions == b.transactions,
        scheme == HashingScheme::WithNonce ==> a.nonce == b.nonce,
    ensures
        canonical_text(a, scheme) == canonical_text(b, scheme),
        block_hash(a, scheme) == block_hash(b, scheme),
{
}

impl Clone for Block {
    fn clone(&self) -> (copy: Self)
        ensures
            copy@ == self@,
    {
        Block {
            index: self.index,
            timestamp: self.timestamp.clone(),
            previous_hash: self.previous_hash.clone(),
            transactions: copy_texts(&self.transactions),
            nonce: self.nonce,
            hash: self.hash.clone(),
            producer: self.producer.clone(),
        }
    }
}

impl Block {
    /// A candidate block with the given creation time: nonce 0 and no hash
    /// yet.
    pub fn with_timestamp(
        index: u64,
        timestamp: String,
        previous_hash: String,
        transactions: Vec<String>,
        producer: String,
    ) -> (block: Block)
        ensures
            block@ == (BlockView {
                index,
                timestamp: timestamp@,
                previous_hash: previous_hash@,
                transactions: texts(transactions@),
                nonce: 0,
                hash: Seq::empty(),
                producer: producer@,
            }),
    {
        Block {
            index,
            timestamp,
            previous_hash,
            transactions,
            nonce: 0,
            hash: String::new(),
            producer,
        }
    }

    /// A candidate block created now: as `with_timestamp`, with the time
    /// read from the clock.
    pub fn new(
        index: u64,
        previous_hash: String,
        transactions: Vec<String>,
        producer: String,
    ) -> (block: Block)
        ensures
            block@ == (BlockView {
                index,
                timestamp: block@.timestamp,
                previous_hash: previous_hash@,
                transactions: texts(transactions@),
                nonce: 0,
                hash: Seq::empty(),
                producer: producer@,
            }),
    {
        Block::with_timestamp(index, current_timestamp(), previous_hash, transactions, producer)
    }

    /// Writes out the text that is hashed.
    pub fn canonical_text(&self, scheme: HashingScheme) -> (text: String)
        ensures
            text@ == canonical_text(self@, scheme),
    {
        let mut text = String::new();
        append_decimal(&mut text, self.index);
        text.append(self.timestamp.as_str());
        text.append(self.previous_hash.as_str());
        text.append(self.producer.as_str());
        match scheme {
            HashingScheme::WithNonce => {
                append_decimal(&mut text, self.nonce);
            },
            HashingScheme::WithoutNonce => {},
        }
        let ghost head = text@;
        let mut i: usize = 0;
        while i < self.transactions.len()
            invariant
                i <= self.transactions.len(),
                text@ == head + concat_all(texts(self.transactions@).take(i as int)),
            decreases self.transactions.len() - i,
        {
            text.append(self.transactions[i].as_str());
            proof {
                let all = texts(self.transactions@);
                assert(all.take(i + 1).drop_last() =~= all.take(i as int));
                assert(text@ =~= head + concat_all(all.take(i + 1)));
            }
            i += 1;
        }
        assert(texts(self.transactions@).take(i as int) =~= texts(self.transactions@));
        assert(text@ =~= canonical_text(self@, scheme));
        text
    }

    /// Computes the hash that the block's fields call for.
    pub fn calculate_hash(&self, scheme: HashingScheme) -> (hash: String)
        ensures
            hash@ == block_hash(self@, scheme),
            hash@.len() == 64,
            forall|i: int| 0 <= i < 64 ==> is_lower_hex(#[trigger] hash@[i]),
    {
        let text = self.canonical_text(scheme);
        hash_text(text.as_str())
    }

    /// Finalizes the block: stores the hash of its fields and changes
    /// nothing else.
    pub fn finalize_block(&mut self, scheme: HashingScheme)
        ensures
            final(self)@ == (BlockView { hash: block_hash(old(self)@, scheme), ..old(self)@ }),
            is_finalized(final(self)@, scheme),
    {
        self.hash = self.calculate_hash(scheme);
        proof {
            lemma_hash_is_function_of_fields(self@, old(self)@, scheme);
        }
    }
}

} // verus!
