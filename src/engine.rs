//! Batch numbering and the gas budget of a batch.
use vstd::prelude::*;
use crate::types::{Batch, H256, Transaction, UserTransaction, gas_of};
use crate::config::BatchConfig;
use crate::scheduler::wrap_normal;

verus! {

broadcast use vstd::seq_lib::group_to_multiset_ensures;

/// The summed gas limits of a sequence of batch entries.
pub open spec fn gas_total(s: Seq<Transaction>) -> nat
    decreases s.len(),
{
    if s.len() == 0 {
        0
    } else {
        gas_total(s.drop_last()) + gas_of(s.last())
    }
}

/// The summed gas limits of a sequence of user transactions.
pub open spec fn user_gas(s: Seq<UserTransaction>) -> nat
    decreases s.len(),
{
    if s.len() == 0 {
        0
    } else {
        user_gas(s.drop_last()) + s.last().gas_limit as nat
    }
}

pub proof fn lemma_gas_total_add(a: Seq<Transaction>, b: Seq<Transaction>)
    ensures
        gas_total(a + b) == gas_total(a) + gas_total(b),
    decreases b.len(),
{
    if b.len() == 0 {
        assert(a + b =~= a);
    } else {
        lemma_gas_total_add(a, b.drop_last());
        assert((a + b).drop_last() =~= a + b.drop_last());
    }
}

pub proof fn lemma_user_gas_add(a: Seq<UserTransaction>, b: Seq<UserTransaction>)
    ensures
        user_gas(a + b) == user_gas(a) + user_gas(b),
    decreases b.len(),
{
    if b.len() == 0 {
        assert(a + b =~= a);
    } else {
        lemma_user_gas_add(a, b.drop_last());
        assert((a + b).drop_last() =~= a + b.drop_last());
    }
}

pub proof fn lemma_gas_of_normals(s: Seq<UserTransaction>)
    ensures
        gas_total(wrap_normal(s)) == user_gas(s),
    decreases s.len(),
{
    if s.len() > 0 {
        lemma_gas_of_normals(s.drop_last());
        assert(wrap_normal(s).drop_last() =~= wrap_normal(s.drop_last()));
    }
}

/// Reordering keeps the total gas.
pub proof fn lemma_user_gas_permutation(a: Seq<UserTransaction>, b: Seq<UserTransaction>)
    requires
        a.to_multiset() == b.to_multiset(),
    ensures
        user_gas(a) == user_gas(b),
    decreases a.len(),
{
    if a.len() == 0 {
        assert(b.to_multiset().len() == 0);
        assert(b =~= Seq::<UserTransaction>::empty());
    } else {
        let x = a.last();
        let a0 = a.drop_last();
        assert(a =~= a0.push(x));
        assert(a.to_multiset().count(x) > 0);
        assert(b.contains(x));
        let j = choose|j: int| 0 <= j < b.len() && b[j] == x;
        let b0 = b.remove(j);
        assert(b0.to_multiset() =~= b.to_multiset().remove(x));
        assert(a0.to_multiset() =~= a.to_multiset().remove(x));
        lemma_user_gas_permutation(a0, b0);
        let front = b.subrange(0, j);
        let back = b.subrange(j + 1, b.len() as int);
        assert(b0 =~= front + back);
        assert(b =~= front + seq![x] + back);
        lemma_user_gas_add(front, back);
        lemma_user_gas_add(front + seq![x], back);
        lemma_user_gas_add(front, seq![x]);
        assert(seq![x].drop_last() =~= Seq::<UserTransaction>::empty());
        assert(user_gas(Seq::<UserTransaction>::empty()) == 0);
        assert(seq![x].last() == x);
        assert(user_gas(seq![x]) == x.gas_limit);
        assert(user_gas(b) == user_gas(front) + x.gas_limit + user_gas(back));
        assert(user_gas(b0) == user_gas(front) + user_gas(back));
        assert(user_gas(a) == user_gas(a0) + x.gas_limit);
    }
}

/// Numbers batches from one upward and holds the gas budget.
pub struct BatchEngine {
    config: BatchConfig,
    next_batch_id: u64,
}

impl BatchEngine {
    pub fn new(config: BatchConfig) -> (r: BatchEngine)
        ensures
            r.next_id() == 1,
            r.config() == config,
    {
        BatchEngine { config, next_batch_id: 1 }
    }

    /// The id the next sealed batch gets.
    pub closed spec fn next_id(&self) -> u64 {
        self.next_batch_id
    }

    pub closed spec fn config(&self) -> BatchConfig {
        self.config
    }

    pub fn next_batch_id(&self) -> (r: u64)
        ensures
            r == self.next_id(),
    {
        self.next_batch_id
    }

    /// Whether `candidate` fits the gas budget after `current`.
    pub fn can_add_transaction(&self, current: &Vec<Transaction>, candidate: &Transaction) -> (r:
        bool)
        ensures
            r == (gas_total(current@) + gas_of(*candidate) <= self.config().max_gas_limit),
    {
        let mut sum: u128 = 0;
        let mut i: usize = 0;
        while i < current.len()
            invariant
                i <= current@.len(),
                sum == gas_total(current@.subrange(0, i as int)),
                sum <= i * (u64::MAX as nat),
            decreases current@.len() - i,
        {
            proof {
                assert(current@.subrange(0, i + 1).drop_last() =~= current@.subrange(0, i as int));
                assert(i < 0x1_0000_0000_0000_0000);
                assert((i + 1) * (u64::MAX as nat) < 0x1_0000_0000_0000_0000_0000_0000_0000_0000)
                    by (nonlinear_arith)
                    requires
                        i < 0x1_0000_0000_0000_0000,
                ;
            }
            sum = sum + current[i].gas_limit() as u128;
            proof {
                assert(sum <= (i + 1) * (u64::MAX as nat)) by (nonlinear_arith)
                    requires
                        sum <= i * (u64::MAX as nat) + u64::MAX,
                ;
            }
            i = i + 1;
        }
        proof {
            assert(current@.subrange(0, current@.len() as int) =~= current@);
            assert(sum + u64::MAX < 0x1_0000_0000_0000_0000_0000_0000_0000_0000) by (nonlinear_arith)
                requires
                    sum <= i * (u64::MAX as nat),
                    i < 0x1_0000_0000_0000_0000,
            ;
        }
        sum + (candidate.gas_limit() as u128) <= self.config.max_gas_limit as u128
    }

    /// Seals `transactions` as the next batch, stamped with `timestamp`.
    pub fn seal_at(&mut self, transactions: Vec<Transaction>, timestamp: u64) -> (r: Batch)
        requires
            old(self).next_id() < u64::MAX,
        ensures
            r.batch_id == old(self).next_id(),
            r.transactions@ == transactions@,
            r.prev_state_root.bytes@ == Seq::new(32, |i: int| 0u8),
            r.timestamp == timestamp,
            final(self).next_id() == old(self).next_id() + 1,
            final(self).config() == old(self).config(),
    {
        let batch = Batch {
            batch_id: self.next_batch_id,
            transactions,
            prev_state_root: H256::zero(),
            timestamp,
        };
        self.next_batch_id = self.next_batch_id + 1;
        batch
    }

    /// Seals `transactions` as the next batch, stamped with the current time.
    pub fn create_batch(&mut self, transactions: Vec<Transaction>) -> (r: Batch)
        requires
            old(self).next_id() < u64::MAX,
        ensures
            r.batch_id == old(self).next_id(),
            r.transactions@ == transactions@,
            r.prev_state_root.bytes@ == Seq::new(32, |i: int| 0u8),
            final(self).next_id() == old(self).next_id() + 1,
            final(self).config() == old(self).config(),
    {
        let now = crate::clock::current_time_ms();
        self.seal_at(transactions, now)
    }
}

} // verus!
