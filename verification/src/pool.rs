//! The pending transactions, first in, first out.

use crate::text::{copy_texts, texts};
use vstd::prelude::*;

verus! {

/// The queue of transactions that await a block.
pub struct TransactionPool {
    pending: Vec<String>,
}

impl View for TransactionPool {
    type V = Seq<Seq<char>>;

    closed spec fn view(&self) -> Seq<Seq<char>> {
        texts(self.pending@)
    }
}

impl TransactionPool {
    /// An empty pool.
    pub fn new() -> (pool: TransactionPool)
        ensures
            pool@ == Seq::<Seq<char>>::empty(),
    {
        let pool = TransactionPool { pending: Vec::new() };
        assert(pool@ =~= Seq::<Seq<char>>::empty());
        pool
    }

    /// The number of pending transactions.
    pub fn len(&self) -> (count: usize)
        ensures
            count == self@.len(),
    {
        self.pending.len()
    }

    /// Whether nothing is pending.
    pub fn is_empty(&self) -> (empty: bool)
        ensures
            empty == (self@.len() == 0),
    {
        self.pending.len() == 0
    }

    /// Adds a transaction behind those already pending.
    pub fn submit(&mut self, transaction: String)
        ensures
            final(self)@ == old(self)@.push(transaction@),
    {
        self.pending.push(transaction);
        assert(self@ =~= old(self)@.push(transaction@));
    }

    /// A copy of the pending transactions, oldest first; the pool keeps
    /// them.
    pub fn snapshot(&self) -> (pending: Vec<String>)
        ensures
            texts(pending@) == self@,
    {
        copy_texts(&self.pending)
    }

    /// Hands out every pending transaction, oldest first, and leaves the
    /// pool empty.
    pub fn drain_all(&mut self) -> (drained: Vec<String>)
        ensures
            texts(drained@) == old(self)@,
            final(self)@ == Seq::<Seq<char>>::empty(),
    {
        let mut drained: Vec<String> = Vec::new();
        drained.append(&mut self.pending);
        assert(texts(drained@) =~= old(self)@);
        assert(self@ =~= Seq::<Seq<char>>::empty());
        drained
    }
}

} // verus!
