//! First-in-first-out buffers: admitted user transactions and forced
//! transactions from L1.
use vstd::prelude::*;
use crate::types::{ForcedTransaction, UserTransaction};
use vstd::math::min;

verus! {

/// Admitted user transactions waiting for a batch.
pub struct TransactionPool {
    transactions: Vec<UserTransaction>,
}

impl View for TransactionPool {
    type V = Seq<UserTransaction>;

    closed spec fn view(&self) -> Seq<UserTransaction> {
        self.transactions@
    }
}

impl TransactionPool {
    pub fn new() -> (r: TransactionPool)
        ensures
            r@ == Seq::<UserTransaction>::empty(),
    {
        TransactionPool { transactions: Vec::new() }
    }

    pub fn len(&self) -> (r: usize)
        ensures
            r == self@.len(),
    {
        self.transactions.len()
    }

    /// Appends at the back.
    pub fn add(&mut self, tx: UserTransaction)
        ensures
            final(self)@ == old(self)@.push(tx),
    {
        self.transactions.push(tx);
    }

    /// Removes and returns up to `max` transactions from the front.
    pub fn get_pending(&mut self, max: usize) -> (r: Vec<UserTransaction>)
        ensures
            r@ == old(self)@.subrange(0, min(max as int, old(self)@.len() as int)),
            final(self)@ == old(self)@.subrange(
                min(max as int, old(self)@.len() as int),
                old(self)@.len() as int,
            ),
    {
        let len = self.transactions.len();
        let n: usize = if max < len {
            max
        } else {
            len
        };
        let mut rest = self.transactions.split_off(n);
        core::mem::swap(&mut self.transactions, &mut rest);
        rest
    }
}

/// Forced transactions from L1, in arrival order.
pub struct ForcedQueue {
    transactions: Vec<ForcedTransaction>,
}

impl View for ForcedQueue {
    type V = Seq<ForcedTransaction>;

    closed spec fn view(&self) -> Seq<ForcedTransaction> {
        self.transactions@
    }
}

impl ForcedQueue {
    pub fn new() -> (r: ForcedQueue)
        ensures
            r@ == Seq::<ForcedTransaction>::empty(),
    {
        ForcedQueue { transactions: Vec::new() }
    }

    pub fn len(&self) -> (r: usize)
        ensures
            r == self@.len(),
    {
        self.transactions.len()
    }

    /// Appends at the back.
    pub fn add(&mut self, tx: ForcedTransaction)
        ensures
            final(self)@ == old(self)@.push(tx),
    {
        self.transactions.push(tx);
    }

    /// Removes and returns everything, in arrival order.
    pub fn get_all(&mut self) -> (r: Vec<ForcedTransaction>)
        ensures
            r@ == old(self)@,
            final(self)@ == Seq::<ForcedTransaction>::empty(),
    {
        let mut all: Vec<ForcedTransaction> = Vec::new();
        core::mem::swap(&mut self.transactions, &mut all);
        all
    }
}

} // verus!
