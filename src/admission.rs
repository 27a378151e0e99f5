//! The admission entry point: validate, advance the sender's nonce, queue
//! the transaction, and answer with a soft confirmation.
use vstd::prelude::*;
use crate::types::{
    AccountState, Address, ConfirmationStatus, H256, SoftConfirmation, UserTransaction,
    ValidationError, error_message, hash_preimage, keccak_of,
};
use crate::state::{StateCache, account_of, with_nonce_advanced};
use crate::pool::TransactionPool;
use crate::validation::{Validator, check_outcome, signer_bytes, signer_of};

verus! {

/// The account state after one admission of `tx` with outcome `accepted`.
pub open spec fn after_admission(
    m: Map<Seq<u8>, AccountState>,
    tx: UserTransaction,
    accepted: bool,
) -> Map<Seq<u8>, AccountState> {
    if accepted {
        with_nonce_advanced(m, tx.from)
    } else {
        m
    }
}

/// What admission of `tx` does, where the checks gave `outcome`: the
/// confirmation's status, the accounts and the pool afterwards.
pub open spec fn admission_effect(
    outcome: Result<(), ValidationError>,
    tx: UserTransaction,
    r: SoftConfirmation,
    accounts0: Map<Seq<u8>, AccountState>,
    accounts1: Map<Seq<u8>, AccountState>,
    pool0: Seq<UserTransaction>,
    pool1: Seq<UserTransaction>,
) -> bool {
    match outcome {
        Ok(()) => {
            &&& r.status is Accepted
            &&& accounts1 == after_admission(accounts0, tx, true)
            &&& pool1 == pool0.push(tx)
        },
        Err(e) => {
            &&& r.status is Rejected
            &&& r.status->reason@ == error_message(e)
            &&& accounts1 == accounts0
            &&& pool1 == pool0
        },
    }
}

/// The state that admission works on: the validator with its account
/// state, and the pool of admitted transactions.
pub struct AppState {
    validator: Validator,
    tx_pool: TransactionPool,
}

impl AppState {
    pub open spec fn wf(&self) -> bool {
        self.validator().wf()
    }

    pub closed spec fn validator(&self) -> Validator {
        self.validator
    }

    /// The accounts as admission sees them.
    pub open spec fn accounts(&self) -> Map<Seq<u8>, AccountState> {
        self.validator().cache()@
    }

    /// The admitted transactions waiting for a batch.
    pub closed spec fn pending(&self) -> Seq<UserTransaction> {
        self.tx_pool@
    }

    pub fn new(state_cache: StateCache) -> (r: AppState)
        requires
            state_cache.wf(),
        ensures
            r.wf(),
            r.accounts() == state_cache@,
            r.pending() == Seq::<UserTransaction>::empty(),
    {
        AppState { validator: Validator::new(state_cache), tx_pool: TransactionPool::new() }
    }

    pub fn state_cache(&self) -> (r: &StateCache)
        ensures
            *r == self.validator().cache(),
    {
        self.validator.state_cache()
    }

    /// Stores an account, replacing any entry for its address.
    pub fn upsert_account(&mut self, state: AccountState)
        requires
            old(self).wf(),
        ensures
            final(self).wf(),
            final(self).accounts() == old(self).accounts().insert(state.address.bytes@, state),
            final(self).pending() == old(self).pending(),
    {
        self.validator.state_cache_mut().update(state);
    }

    /// Lends the pool, for the orchestrator to drain.
    pub fn tx_pool_mut(&mut self) -> (r: &mut TransactionPool)
        ensures
            r@ == old(self).pending(),
            final(self).pending() == final(r)@,
            final(self).validator() == old(self).validator(),
    {
        &mut self.tx_pool
    }

    /// Admission where the transaction's hash and recovered signer are
    /// given: the checks decide, and the confirmation carries `tx_hash`
    /// and `now`.
    pub fn submit_recovered(
        &mut self,
        tx: UserTransaction,
        tx_hash: H256,
        signer: Option<Address>,
        now: u64,
    ) -> (r: SoftConfirmation)
        requires
            old(self).wf(),
        ensures
            final(self).wf(),
            r.tx_hash == tx_hash,
            r.timestamp == now,
            admission_effect(
                check_outcome(old(self).accounts(), tx, signer_bytes(signer)),
                tx,
                r,
                old(self).accounts(),
                final(self).accounts(),
                old(self).pending(),
                final(self).pending(),
            ),
    {
        match self.validator.validate_with_signer(&tx, signer) {
            Ok(()) => {
                self.validator.state_cache_mut().increment_nonce(&tx.from);
                self.tx_pool.add(tx);
                SoftConfirmation { tx_hash, status: ConfirmationStatus::Accepted, timestamp: now }
            },
            Err(e) => {
                SoftConfirmation {
                    tx_hash,
                    status: ConfirmationStatus::Rejected { reason: e.message() },
                    timestamp: now,
                }
            },
        }
    }

    /// Admission stamped with `now`.
    pub fn submit_at(&mut self, tx: UserTransaction, now: u64) -> (r: SoftConfirmation)
        requires
            old(self).wf(),
        ensures
            final(self).wf(),
            r.tx_hash.bytes@ == keccak_of(hash_preimage(tx)),
            r.timestamp == now,
            admission_effect(
                check_outcome(old(self).accounts(), tx, signer_of(tx)),
                tx,
                r,
                old(self).accounts(),
                final(self).accounts(),
                old(self).pending(),
                final(self).pending(),
            ),
    {
        let tx_hash = tx.hash();
        let signer = Validator::recover(&tx);
        self.submit_recovered(tx, tx_hash, signer, now)
    }

    /// Admission stamped with the current time.
    pub fn submit(&mut self, tx: UserTransaction) -> (r: SoftConfirmation)
        requires
            old(self).wf(),
        ensures
            final(self).wf(),
            r.tx_hash.bytes@ == keccak_of(hash_preimage(tx)),
            admission_effect(
                check_outcome(old(self).accounts(), tx, signer_of(tx)),
                tx,
                r,
                old(self).accounts(),
                final(self).accounts(),
                old(self).pending(),
                final(self).pending(),
            ),
    {
        let now = crate::clock::current_time_ms();
        self.submit_at(tx, now)
    }
}

} // verus!

verus! {

/// The accounts after admissions of `txs` in order, where `accepted[i]`
/// says whether the i-th was accepted.
pub open spec fn after_admissions(
    m: Map<Seq<u8>, AccountState>,
    txs: Seq<UserTransaction>,
    accepted: Seq<bool>,
) -> Map<Seq<u8>, AccountState>
    decreases txs.len(),
{
    if txs.len() == 0 || accepted.len() != txs.len() {
        m
    } else {
        after_admission(
            after_admissions(m, txs.drop_last(), accepted.drop_last()),
            txs.last(),
            accepted.last(),
        )
    }
}

/// How many of `txs` from sender `a` were accepted.
pub open spec fn accepted_from(txs: Seq<UserTransaction>, accepted: Seq<bool>, a: Seq<u8>) -> nat
    decreases txs.len(),
{
    if txs.len() == 0 || accepted.len() != txs.len() {
        0
    } else {
        accepted_from(txs.drop_last(), accepted.drop_last(), a) + if accepted.last()
            && txs.last().from.bytes@ == a {
            1nat
        } else {
            0nat
        }
    }
}

/// Starting from nonce zero, a sender's nonce after any run of admissions
/// is the number of its admissions that were accepted.
pub proof fn lemma_nonce_counts_admissions(
    m: Map<Seq<u8>, AccountState>,
    txs: Seq<UserTransaction>,
    accepted: Seq<bool>,
    a: Address,
)
    requires
        txs.len() == accepted.len(),
        txs.len() < u64::MAX,
        account_of(m, a).nonce == 0,
    ensures
        account_of(after_admissions(m, txs, accepted), a).nonce == accepted_from(
            txs,
            accepted,
            a.bytes@,
        ),
        accepted_from(txs, accepted, a.bytes@) <= txs.len(),
    decreases txs.len(),
{
    if txs.len() > 0 {
        let p = txs.drop_last();
        let q = accepted.drop_last();
        lemma_nonce_counts_admissions(m, p, q, a);
        let m1 = after_admissions(m, p, q);
        let tx = txs.last();
        if accepted.last() {
            if tx.from.bytes@ == a.bytes@ {
                assert(account_of(m1, tx.from).nonce == account_of(m1, a).nonce);
            } else {
                assert(account_of(with_nonce_advanced(m1, tx.from), a) == account_of(m1, a));
            }
        }
    }
}

} // verus!
