//! Proof of work: a block is admitted for a nonce under which its hash
//! begins with as many zero digits as the difficulty asks.

use crate::block::{block_hash, is_finalized, lemma_hash_is_function_of_fields, Block, BlockView};
use crate::hashing::HashingScheme;
use crate::text::{has_leading_zeros, starts_with_zeros};
use vstd::prelude::*;

verus! {

/// The hash that the block's fields call for once its nonce is `nonce`.
pub open spec fn hash_with_nonce(block: BlockView, nonce: u64) -> Seq<char> {
    block_hash(BlockView { nonce, ..block }, HashingScheme::WithNonce)
}

/// Whether `nonce` gives the block a hash that meets the difficulty.
pub open spec fn nonce_solves(block: BlockView, nonce: u64, difficulty: nat) -> bool {
    has_leading_zeros(hash_with_nonce(block, nonce), difficulty)
}

/// A block is valid work when the hash it carries is the hash of its
/// fields, nonce included, and begins with `difficulty` zero digits.
pub open spec fn is_valid_work(block: BlockView, difficulty: nat) -> bool {
    &&& is_finalized(block, HashingScheme::WithNonce)
    &&& has_leading_zeros(block.hash, difficulty)
}

/// `mined` is what mining makes of `candidate`: the same block with the
/// least nonce that meets the difficulty, and with the hash that belongs to
/// it.
pub open spec fn is_mined_from(candidate: BlockView, difficulty: nat, mined: BlockView) -> bool {
    &&& nonce_solves(candidate, mined.nonce, difficulty)
    &&& forall|n: u64| n < mined.nonce ==> !nonce_solves(candidate, n, difficulty)
    &&& mined == BlockView {
        nonce: mined.nonce,
        hash: hash_with_nonce(candidate, mined.nonce),
        ..candidate
    }
}

/// A mined block is valid work: its hash is the hash of its fields and its
/// first `difficulty` characters are `'0'`.
pub proof fn lemma_mined_block_is_valid(candidate: BlockView, difficulty: nat, mined: BlockView)
    requires
        is_mined_from(candidate, difficulty, mined),
    ensures
        is_valid_work(mined, difficulty),
        forall|i: int| 0 <= i < difficulty ==> mined.hash[i] == '0',
{
    lemma_hash_is_function_of_fields(
        mined,
        BlockView { nonce: mined.nonce, ..candidate },
        HashingScheme::WithNonce,
    );
}

/// Work that is valid at one difficulty is valid at every lower one.
pub proof fn lemma_valid_work_at_lower_difficulty(block: BlockView, difficulty: nat, lower: nat)
    requires
        is_valid_work(block, difficulty),
        lower <= difficulty,
    ensures
        is_valid_work(block, lower),
{
}

impl Block {
    /// Searches the nonces from 0 upward for the first under which the
    /// block's hash begins with `difficulty` zero digits, and finalizes the
    /// block with it. The search fails, and leaves the block as it was,
    /// where no nonce will do or where the difficulty is more than the 64
    /// digits of a hash.
    pub fn mine_block(&mut self, difficulty: usize) -> (found: bool)
        ensures
            found <==> difficulty <= 64 && exists|n: u64|
                nonce_solves(old(self)@, n, difficulty as nat),
            found ==> is_mined_from(old(self)@, difficulty as nat, final(self)@),
            !found ==> final(self)@ == old(self)@,
    {
        if difficulty > 64 {
            return false;
        }
        let first_nonce = self.nonce;
        self.nonce = 0;
        loop
            invariant
                self@ == (BlockView { nonce: self.nonce, ..old(self)@ }),
                first_nonce == old(self).nonce,
                forall|n: u64| n < self.nonce ==> !nonce_solves(old(self)@, n, difficulty as nat),
            decreases u64::MAX - self.nonce,
        {
            let hash = self.calculate_hash(HashingScheme::WithNonce);
            assert(hash@ == hash_with_nonce(old(self)@, self.nonce));
            if starts_with_zeros(hash.as_str(), difficulty) {
                self.hash = hash;
                assert(nonce_solves(old(self)@, self.nonce, difficulty as nat));
                return true;
            }
            if self.nonce == u64::MAX {
                self.nonce = first_nonce;
                assert forall|n: u64| !nonce_solves(old(self)@, n, difficulty as nat) by {
                    if n < u64::MAX {
                    }
                }
                return false;
            }
            self.nonce = self.nonce + 1;
        }
    }
}

/// Accepts exactly the blocks that are valid work at `difficulty`: the
/// hash is computed again from the stored fields, nonce included, and must
/// be the stored hash and meet the difficulty.
pub fn validate(block: &Block, difficulty: usize) -> (valid: bool)
    ensures
        valid == is_valid_work(block@, difficulty as nat),
{
    let expected = block.calculate_hash(HashingScheme::WithNonce);
    expected == block.hash && starts_with_zeros(block.hash.as_str(), difficulty)
}

} // verus!
