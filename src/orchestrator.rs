//! Batch production: drain both queues under the count and gas caps,
//! schedule, and seal. Also the timer rule that decides when to produce.
use vstd::prelude::*;
use vstd::string::*;
use crate::types::{Batch, BatchMetadata, ForcedTransaction, Transaction, UserTransaction, gas_of};
use crate::config::BatchConfig;
use crate::engine::{
    BatchEngine, gas_total, lemma_gas_of_normals, lemma_gas_total_add, lemma_user_gas_permutation,
};
use crate::pool::{ForcedQueue, TransactionPool};
use crate::policies::{SchedulingPolicyType, create_policy, policy_name};
use crate::scheduler::{Scheduler, forced_first, is_schedule, normals_of, wrap_forced, wrap_normal};
use vstd::math::min;

verus! {

/// The forced transactions kept, in order, when each is tested against the
/// gas of those kept before it (starting from `used`) and dropped if it
/// does not fit.
pub open spec fn fit_forced(fs: Seq<ForcedTransaction>, used: nat, max: nat) -> Seq<
    ForcedTransaction,
>
    decreases fs.len(),
{
    if fs.len() == 0 {
        Seq::empty()
    } else {
        let g = fs[0].gas_limit as nat;
        if used + g <= max {
            seq![fs[0]] + fit_forced(fs.drop_first(), used + g, max)
        } else {
            fit_forced(fs.drop_first(), used, max)
        }
    }
}

/// How many of `ns`, taken from the front after `used` gas, fit before the
/// first one that does not.
pub open spec fn fit_prefix_len(ns: Seq<UserTransaction>, used: nat, max: nat) -> nat
    decreases ns.len(),
{
    if ns.len() == 0 {
        0
    } else {
        let g = ns[0].gas_limit as nat;
        if used + g <= max {
            1 + fit_prefix_len(ns.drop_first(), used + g, max)
        } else {
            0
        }
    }
}

/// The forced transactions that a batch takes from queue contents `fs`.
pub open spec fn accepted_forced(fs: Seq<ForcedTransaction>, cfg: BatchConfig) -> Seq<
    ForcedTransaction,
> {
    fit_forced(fs, 0, cfg.max_gas_limit as nat)
}

/// How many transactions a batch drains from pool contents `ps`, after the
/// forced ones it accepted from `fs`.
pub open spec fn drained_count(
    fs: Seq<ForcedTransaction>,
    ps: Seq<UserTransaction>,
    cfg: BatchConfig,
) -> int {
    let room = cfg.max_batch_size as int - accepted_forced(fs, cfg).len();
    min(if room > 0 { room } else { 0 }, ps.len() as int)
}

/// The normal transactions a batch accepts: the drained front of the pool,
/// up to the first that does not fit the gas left after the forced ones.
pub open spec fn accepted_normal(
    fs: Seq<ForcedTransaction>,
    ps: Seq<UserTransaction>,
    cfg: BatchConfig,
) -> Seq<UserTransaction> {
    let drained = ps.subrange(0, drained_count(fs, ps, cfg));
    let used = gas_total(wrap_forced(accepted_forced(fs, cfg)));
    drained.subrange(0, fit_prefix_len(drained, used, cfg.max_gas_limit as nat) as int)
}

/// The number of forced entries in a batch.
pub open spec fn forced_count(s: Seq<Transaction>) -> nat
    decreases s.len(),
{
    if s.len() == 0 {
        0
    } else {
        forced_count(s.drop_last()) + if s.last() is Forced {
            1nat
        } else {
            0nat
        }
    }
}

pub proof fn lemma_forced_count_bound(s: Seq<Transaction>)
    ensures
        forced_count(s) <= s.len(),
    decreases s.len(),
{
    if s.len() > 0 {
        lemma_forced_count_bound(s.drop_last());
    }
}

/// When to attempt a batch: once `timeout_ms` has passed since the last
/// attempt that did not fail.
#[derive(Clone, Copy, Debug)]
pub struct SealTimer {
    pub last_seal_ms: u64,
    pub timeout_ms: u64,
}

impl SealTimer {
    pub fn new(timeout_ms: u64, now: u64) -> (r: SealTimer)
        ensures
            r.last_seal_ms == now,
            r.timeout_ms == timeout_ms,
    {
        SealTimer { last_seal_ms: now, timeout_ms }
    }

    /// Whether a batch is due at `now`.
    pub fn is_due(&self, now: u64) -> (r: bool)
        ensures
            r == (now >= self.last_seal_ms && now - self.last_seal_ms >= self.timeout_ms),
    {
        now >= self.last_seal_ms && now - self.last_seal_ms >= self.timeout_ms
    }

    /// Records an attempt at `now`: the timer restarts unless it failed,
    /// whether or not a batch came out.
    pub fn record_attempt(&mut self, failed: bool, now: u64)
        ensures
            final(self).timeout_ms == old(self).timeout_ms,
            final(self).last_seal_ms == if failed {
                old(self).last_seal_ms
            } else {
                now
            },
    {
        if !failed {
            self.last_seal_ms = now;
        }
    }
}

/// Drives batch production.
pub struct BatchOrchestrator {
    scheduler: Scheduler,
    batch_engine: BatchEngine,
    config: BatchConfig,
}

impl BatchOrchestrator {
    pub closed spec fn wf(&self) -> bool {
        &&& self.scheduler.kind().valid()
        &&& self.batch_engine.config() == self.config
    }

    pub closed spec fn config(&self) -> BatchConfig {
        self.config
    }

    pub closed spec fn policy(&self) -> SchedulingPolicyType {
        self.scheduler.kind()
    }

    /// The id the next sealed batch gets.
    pub closed spec fn next_id(&self) -> u64 {
        self.batch_engine.next_id()
    }

    pub fn new(batch_config: BatchConfig, scheduling_policy: SchedulingPolicyType) -> (r:
        BatchOrchestrator)
        requires
            scheduling_policy.valid(),
        ensures
            r.wf(),
            r.config() == batch_config,
            r.policy() == scheduling_policy,
            r.next_id() == 1,
    {
        let policy = create_policy(scheduling_policy);
        BatchOrchestrator {
            scheduler: Scheduler::new(policy),
            batch_engine: BatchEngine::new(batch_config),
            config: batch_config,
        }
    }

    pub fn next_batch_id(&self) -> (r: u64)
        ensures
            r == self.next_id(),
    {
        self.batch_engine.next_batch_id()
    }

    /// What the registry records of `batch`.
    pub fn metadata(&self, batch: &Batch) -> (r: BatchMetadata)
        ensures
            r.batch_id == batch.batch_id,
            r.tx_count == batch.transactions@.len(),
            r.forced_tx_count == forced_count(batch.transactions@),
            r.timestamp == batch.timestamp,
            r.scheduling_policy@ == policy_name(self.policy()),
    {
        let mut forced: usize = 0;
        let mut i: usize = 0;
        while i < batch.transactions.len()
            invariant
                i <= batch.transactions@.len(),
                forced == forced_count(batch.transactions@.subrange(0, i as int)),
            decreases batch.transactions@.len() - i,
        {
            proof {
                assert(batch.transactions@.subrange(0, i + 1).drop_last() =~= batch.transactions@.subrange(0, i as int));
                lemma_forced_count_bound(batch.transactions@.subrange(0, i as int));
            }
            if batch.transactions[i].is_forced() {
                forced = forced + 1;
            }
            i = i + 1;
        }
        proof {
            assert(batch.transactions@.subrange(0, i as int) =~= batch.transactions@);
        }
        BatchMetadata {
            batch_id: batch.batch_id,
            tx_count: batch.transactions.len(),
            forced_tx_count: forced,
            timestamp: batch.timestamp,
            scheduling_policy: String::from_str(self.scheduler.policy_name()),
        }
    }

    /// Produces one batch stamped with `timestamp`, or `None` where nothing
    /// was accepted. Forced transactions that do not fit the gas budget, and
    /// drained normal ones from the first that does not fit on, are dropped.
    pub fn produce_batch_at(
        &mut self,
        forced_queue: &mut ForcedQueue,
        tx_pool: &mut TransactionPool,
        timestamp: u64,
    ) -> (r: Option<Batch>)
        requires
            old(self).wf(),
            old(self).next_id() < u64::MAX,
        ensures
            final(self).wf(),
            final(self).config() == old(self).config(),
            final(self).policy() == old(self).policy(),
            final(forced_queue)@ == Seq::<ForcedTransaction>::empty(),
            final(tx_pool)@ == old(tx_pool)@.subrange(
                drained_count(old(forced_queue)@, old(tx_pool)@, old(self).config()),
                old(tx_pool)@.len() as int,
            ),
            ({
                let af = accepted_forced(old(forced_queue)@, old(self).config());
                let an = accepted_normal(old(forced_queue)@, old(tx_pool)@, old(self).config());
                match r {
                    None => af.len() == 0 && an.len() == 0 && final(self).next_id() == old(
                        self,
                    ).next_id(),
                    Some(b) => {
                        &&& af.len() + an.len() > 0
                        &&& b.batch_id == old(self).next_id()
                        &&& final(self).next_id() == old(self).next_id() + 1
                        &&& b.timestamp == timestamp
                        &&& b.prev_state_root.bytes@ == Seq::new(32, |i: int| 0u8)
                        &&& is_schedule(old(self).policy(), af, an, b.transactions@)
                        &&& forced_first(b.transactions@)
                        &&& gas_total(b.transactions@) <= old(self).config().max_gas_limit
                        &&& (old(forced_queue)@.len() <= old(self).config().max_batch_size
                            ==> b.transactions@.len() <= old(self).config().max_batch_size)
                    },
                }
            }),
    {
        let ghost fs = forced_queue@;
        let ghost ps = tx_pool@;
        let ghost cfg = self.config;
        let ghost max = self.config.max_gas_limit as nat;
        let forced_txs = forced_queue.get_all();
        let mut accepted_f: Vec<ForcedTransaction> = Vec::new();
        let mut combined: Vec<Transaction> = Vec::new();
        let mut i: usize = 0;
        proof {
            assert(fs.subrange(0, fs.len() as int) =~= fs);
            assert(accepted_f@ + fit_forced(fs, 0, max) =~= fit_forced(fs, 0, max));
            assert(combined@ =~= wrap_forced(accepted_f@));
        }
        while i < forced_txs.len()
            invariant
                forced_txs@ == fs,
                self.wf(),
                self.config == cfg,
                max == cfg.max_gas_limit,
                i <= fs.len(),
                combined@ == wrap_forced(accepted_f@),
                gas_total(combined@) <= max,
                accepted_f@.len() <= i,
                accepted_f@ + fit_forced(fs.subrange(i as int, fs.len() as int), gas_total(combined@), max)
                    == fit_forced(fs, 0, max),
            decreases fs.len() - i,
        {
            let tx = forced_txs[i];
            let wrapped = Transaction::Forced(tx);
            let ghost rest = fs.subrange(i as int, fs.len() as int);
            let ghost used = gas_total(combined@);
            proof {
                assert(rest.drop_first() =~= fs.subrange(i + 1, fs.len() as int));
                assert(rest[0] == tx);
            }
            if self.batch_engine.can_add_transaction(&combined, &wrapped) {
                let ghost before = combined@;
                accepted_f.push(tx);
                combined.push(wrapped);
                proof {
                    assert(combined@.drop_last() =~= before);
                    assert(gas_total(combined@) == used + tx.gas_limit);
                    assert(combined@ =~= wrap_forced(accepted_f@));
                    assert(accepted_f@ + fit_forced(fs.subrange(i + 1, fs.len() as int), gas_total(combined@), max)
                        =~= accepted_f@.drop_last() + fit_forced(rest, used, max));
                }
            }
            i = i + 1;
        }
        proof {
            assert(fs.subrange(fs.len() as int, fs.len() as int) =~= Seq::<ForcedTransaction>::empty());
            assert(accepted_f@ =~= accepted_forced(fs, cfg));
        }
        let ghost gf = gas_total(combined@);
        let room: usize = if accepted_f.len() < self.config.max_batch_size {
            self.config.max_batch_size - accepted_f.len()
        } else {
            0
        };
        let normal_txs = tx_pool.get_pending(room);
        let ghost drained = normal_txs@;
        proof {
            assert(drained == ps.subrange(0, drained_count(fs, ps, cfg)));
        }
        let mut accepted_n: Vec<UserTransaction> = Vec::new();
        let mut k: usize = 0;
        let mut stopped: bool = false;
        proof {
            assert(drained.subrange(0, 0) =~= accepted_n@);
            assert(drained.subrange(0, drained.len() as int) =~= drained);
            assert(combined@ =~= wrap_forced(accepted_f@) + wrap_normal(accepted_n@));
        }
        while k < normal_txs.len() && !stopped
            invariant
                normal_txs@ == drained,
                self.wf(),
                self.config == cfg,
                max == cfg.max_gas_limit,
                k <= drained.len(),
                accepted_n@ == drained.subrange(0, k as int),
                combined@ == wrap_forced(accepted_f@) + wrap_normal(accepted_n@),
                gas_total(combined@) <= max,
                gas_total(wrap_forced(accepted_f@)) == gf,
                fit_prefix_len(drained, gf, max) == if stopped {
                    k as int
                } else {
                    k + fit_prefix_len(drained.subrange(k as int, drained.len() as int), gas_total(combined@), max)
                },
            decreases drained.len() - k + (if stopped { 0int } else { 1int }),
        {
            let tx = normal_txs[k];
            let wrapped = Transaction::Normal(tx);
            let ghost rest = drained.subrange(k as int, drained.len() as int);
            let ghost used = gas_total(combined@);
            proof {
                assert(rest.drop_first() =~= drained.subrange(k + 1, drained.len() as int));
                assert(rest[0] == tx);
            }
            if self.batch_engine.can_add_transaction(&combined, &wrapped) {
                let ghost before = combined@;
                combined.push(wrapped);
                accepted_n.push(tx);
                proof {
                    assert(combined@.drop_last() =~= before);
                    assert(gas_total(combined@) == used + tx.gas_limit);
                    assert(combined@ =~= wrap_forced(accepted_f@) + wrap_normal(accepted_n@));
                    assert(accepted_n@ =~= drained.subrange(0, k + 1));
                }
                k = k + 1;
            } else {
                stopped = true;
            }
        }
        proof {
            if !stopped {
                assert(drained.subrange(k as int, drained.len() as int) =~= Seq::<UserTransaction>::empty());
            }
            assert(accepted_n@ =~= accepted_normal(fs, ps, cfg));
        }
        if accepted_f.len() == 0 && accepted_n.len() == 0 {
            return None;
        }
        let ghost af = accepted_f@;
        let ghost an = accepted_n@;
        let ordered = self.scheduler.schedule(accepted_f, accepted_n);
        proof {
            let f = af.len() as int;
            let tail = ordered@.subrange(f, ordered@.len() as int);
            assert(ordered@ =~= wrap_forced(af) + tail);
            lemma_gas_total_add(wrap_forced(af), tail);
            lemma_gas_total_add(wrap_forced(af), wrap_normal(an));
            lemma_gas_of_normals(normals_of(tail));
            lemma_gas_of_normals(an);
            lemma_user_gas_permutation(normals_of(tail), an);
            assert(ordered@.len() == af.len() + an.len());
            assert(an.len() <= drained.len());
            assert(drained.len() <= room);
        }
        let batch = self.batch_engine.seal_at(ordered, timestamp);
        Some(batch)
    }

    /// Produces one batch stamped with the current time, or `None` where
    /// nothing was accepted.
    pub fn produce_batch(&mut self, forced_queue: &mut ForcedQueue, tx_pool: &mut TransactionPool)
        -> (r: Option<Batch>)
        requires
            old(self).wf(),
            old(self).next_id() < u64::MAX,
        ensures
            final(self).wf(),
            final(self).config() == old(self).config(),
            final(self).policy() == old(self).policy(),
            final(forced_queue)@ == Seq::<ForcedTransaction>::empty(),
            final(tx_pool)@ == old(tx_pool)@.subrange(
                drained_count(old(forced_queue)@, old(tx_pool)@, old(self).config()),
                old(tx_pool)@.len() as int,
            ),
            ({
                let af = accepted_forced(old(forced_queue)@, old(self).config());
                let an = accepted_normal(old(forced_queue)@, old(tx_pool)@, old(self).config());
                match r {
                    None => af.len() == 0 && an.len() == 0 && final(self).next_id() == old(
                        self,
                    ).next_id(),
                    Some(b) => {
                        &&& af.len() + an.len() > 0
                        &&& b.batch_id == old(self).next_id()
                        &&& final(self).next_id() == old(self).next_id() + 1
                        &&& is_schedule(old(self).policy(), af, an, b.transactions@)
                        &&& forced_first(b.transactions@)
                        &&& gas_total(b.transactions@) <= old(self).config().max_gas_limit
                        &&& (old(forced_queue)@.len() <= old(self).config().max_batch_size
                            ==> b.transactions@.len() <= old(self).config().max_batch_size)
                    },
                }
            }),
    {
        let now = crate::clock::current_time_ms();
        self.produce_batch_at(forced_queue, tx_pool, now)
    }
}

} // verus!

verus! {

/// The ids of the batches that a run of productions emitted, in order.
pub open spec fn emitted_ids(out: Seq<Option<u64>>) -> Seq<u64>
    decreases out.len(),
{
    if out.len() == 0 {
        Seq::empty()
    } else {
        let before = emitted_ids(out.drop_last());
        match out.last() {
            Some(id) => before.push(id),
            None => before,
        }
    }
}

/// An orchestrator starts at id one, and each production either emits the
/// next id and advances by one, or emits nothing and keeps it. So the ids
/// emitted are 1, 2, 3, ... without gaps, and the next is one past the last.
pub proof fn lemma_batch_ids_contiguous(next_ids: Seq<u64>, out: Seq<Option<u64>>)
    requires
        next_ids.len() == out.len() + 1,
        next_ids[0] == 1,
        forall|i: int|
            0 <= i < out.len() ==> match #[trigger] out[i] {
                Some(id) => id == next_ids[i] && next_ids[i + 1] == next_ids[i] + 1,
                None => next_ids[i + 1] == next_ids[i],
            },
    ensures
        forall|k: int| 0 <= k < emitted_ids(out).len() ==> emitted_ids(out)[k] == k + 1,
        next_ids.last() == emitted_ids(out).len() + 1,
    decreases out.len(),
{
    if out.len() > 0 {
        let o = out.drop_last();
        let n = next_ids.drop_last();
        assert forall|i: int| 0 <= i < o.len() implies match #[trigger] o[i] {
            Some(id) => id == n[i] && n[i + 1] == n[i] + 1,
            None => n[i + 1] == n[i],
        } by {
            assert(o[i] == out[i]);
        }
        lemma_batch_ids_contiguous(n, o);
        let last = out.len() - 1;
        assert(out[last] == out.last());
    }
}

} // verus!
