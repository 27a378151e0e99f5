//! Admission checks on a user transaction: signature, then nonce, then
//! balance. The first that fails decides the error.
use vstd::prelude::*;
use crate::types::{
    AccountState, Address, H256, UserTransaction, ValidationError, boost_of, hash_preimage, keccak_of,
};
use crate::state::{StateCache, account_of};
use crate::uint::{
    U256, be_bytes, half_base, lemma_be_bytes_injective, lemma_be_bytes_len, lemma_pow256_widths,
    lemma_u256_of_view, u256_max, u256_of,
};

verus! {

/// The gas that admission charges for, whatever the transaction's own limit.
pub const ADMISSION_GAS: u64 = 21000;

/// The address recovered from signature `(r, s, v)`, given as big-endian
/// bytes, over a 32-byte message hash; `None` where recovery fails.
pub uninterp spec fn recovered_signer(r: Seq<u8>, s: Seq<u8>, v: u64, hash: Seq<u8>) -> Option<
    Seq<u8>,
>;

/// Relies on ethers' Signature::recover, given a prehashed message: the
/// Ethereum address of the key that signed `hash`, or an error. The result
/// depends on the arguments alone.
#[verifier::external_body]
fn recover_signer(r_bytes: &Vec<u8>, s_bytes: &Vec<u8>, v: u64, hash: &[u8; 32]) -> (r: Option<
    Address,
>)
    requires
        r_bytes@.len() == 32,
        s_bytes@.len() == 32,
    ensures
        match r {
            Some(a) => recovered_signer(r_bytes@, s_bytes@, v, hash@) == Some(a.bytes@),
            None => recovered_signer(r_bytes@, s_bytes@, v, hash@) is None,
        },
{
    let signature = ethers::types::Signature {
        r: ethers::types::U256::from_big_endian(r_bytes),
        s: ethers::types::U256::from_big_endian(s_bytes),
        v,
    };
    match signature.recover(ethers::types::H256(*hash)) {
        Ok(address) => Some(Address { bytes: address.0 }),
        Err(_) => None,
    }
}

/// The bytes of a recovered address, if any.
pub open spec fn signer_bytes(signer: Option<Address>) -> Option<Seq<u8>> {
    match signer {
        Some(a) => Some(a.bytes@),
        None => None,
    }
}

/// The signer that recovery yields for `tx` under its canonical hash.
pub open spec fn signer_of(tx: UserTransaction) -> Option<Seq<u8>> {
    recovered_signer(
        be_bytes(tx.signature.r@, 32),
        be_bytes(tx.signature.s@, 32),
        tx.signature.v,
        keccak_of(hash_preimage(tx)),
    )
}

/// Value plus admission fee.
pub open spec fn required_amount(tx: UserTransaction) -> nat {
    tx.value@ + tx.gas_price@ * ADMISSION_GAS as nat
}

/// The outcome of admission checks against `accounts`, where recovery gave
/// `signer`. An account whose nonce is already `u64::MAX` takes no more.
pub open spec fn check_outcome(
    accounts: Map<Seq<u8>, AccountState>,
    tx: UserTransaction,
    signer: Option<Seq<u8>>,
) -> Result<(), ValidationError> {
    let acct = account_of(accounts, tx.from);
    if signer != Some(tx.from.bytes@) {
        Err(ValidationError::InvalidSignature)
    } else if tx.nonce != acct.nonce || acct.nonce == u64::MAX {
        Err(ValidationError::InvalidNonce { expected: acct.nonce, got: tx.nonce })
    } else if acct.balance@ < required_amount(tx) {
        Err(
            ValidationError::InsufficientBalance {
                required: u256_of(
                    if required_amount(tx) <= u256_max() {
                        required_amount(tx)
                    } else {
                        u256_max()
                    },
                ),
                available: acct.balance,
            },
        )
    } else {
        Ok(())
    }
}

/// Checks transactions against the account state it holds.
pub struct Validator {
    state_cache: StateCache,
}

impl Validator {
    pub open spec fn wf(&self) -> bool {
        self.cache().wf()
    }

    pub closed spec fn cache(&self) -> StateCache {
        self.state_cache
    }

    pub fn new(state_cache: StateCache) -> (r: Validator)
        ensures
            r.cache() == state_cache,
    {
        Validator { state_cache }
    }

    pub fn state_cache(&self) -> (r: &StateCache)
        ensures
            *r == self.cache(),
    {
        &self.state_cache
    }

    /// Lends the account state for change.
    pub fn state_cache_mut(&mut self) -> (r: &mut StateCache)
        ensures
            *r == old(self).cache(),
            final(self).cache() == *final(r),
    {
        &mut self.state_cache
    }

    /// The signer recovered from the transaction's signature over its hash.
    pub fn recover(tx: &UserTransaction) -> (r: Option<Address>)
        ensures
            signer_bytes(r) == signer_of(*tx),
    {
        let hash = tx.hash();
        let r_bytes = tx.signature.r.to_be_bytes();
        let s_bytes = tx.signature.s.to_be_bytes();
        proof {
            lemma_be_bytes_len(tx.signature.r@, 32);
            lemma_be_bytes_len(tx.signature.s@, 32);
        }
        recover_signer(&r_bytes, &s_bytes, tx.signature.v, &hash.bytes)
    }

    fn verify_signature(&self, tx: &UserTransaction, signer: Option<Address>) -> (r: Result<
        (),
        ValidationError,
    >)
        ensures
            r == if signer_bytes(signer) == Some(tx.from.bytes@) {
                Ok::<(), ValidationError>(())
            } else {
                Err(ValidationError::InvalidSignature)
            },
    {
        match signer {
            Some(a) => {
                if a == tx.from {
                    Ok(())
                } else {
                    Err(ValidationError::InvalidSignature)
                }
            },
            None => Err(ValidationError::InvalidSignature),
        }
    }

    fn check_nonce(&self, tx: &UserTransaction) -> (r: Result<(), ValidationError>)
        requires
            self.wf(),
        ensures
            ({
                let acct = account_of(self.cache()@, tx.from);
                r == if tx.nonce != acct.nonce || acct.nonce == u64::MAX {
                    Err(ValidationError::InvalidNonce { expected: acct.nonce, got: tx.nonce })
                } else {
                    Ok::<(), ValidationError>(())
                }
            }),
    {
        let account = self.state_cache.get_or_init_account(&tx.from);
        let expected = account.nonce;
        if tx.nonce != expected || expected == u64::MAX {
            return Err(ValidationError::InvalidNonce { expected, got: tx.nonce });
        }
        Ok(())
    }

    fn check_balance(&self, tx: &UserTransaction) -> (r: Result<(), ValidationError>)
        requires
            self.wf(),
        ensures
            ({
                let acct = account_of(self.cache()@, tx.from);
                r == if acct.balance@ < required_amount(*tx) {
                    Err(
                        ValidationError::InsufficientBalance {
                            required: u256_of(
                                if required_amount(*tx) <= u256_max() {
                                    required_amount(*tx)
                                } else {
                                    u256_max()
                                },
                            ),
                            available: acct.balance,
                        },
                    )
                } else {
                    Ok::<(), ValidationError>(())
                }
            }),
    {
        let account = self.state_cache.get_or_init_account(&tx.from);
        let covered = match tx.gas_price.checked_mul_u64(ADMISSION_GAS) {
            Some(fee) => match tx.value.checked_add(&fee) {
                Some(total) => total.le(&account.balance),
                None => false,
            },
            None => false,
        };
        if covered {
            Ok(())
        } else {
            let fee = tx.gas_price.saturating_mul_u64(ADMISSION_GAS);
            let required = tx.value.saturating_add(&fee);
            proof {
                lemma_u256_of_view(required);
            }
            Err(ValidationError::InsufficientBalance { required, available: account.balance })
        }
    }

    /// The admission checks, in order, where recovery gave `signer`.
    pub fn validate_with_signer(&self, tx: &UserTransaction, signer: Option<Address>) -> (r: Result<
        (),
        ValidationError,
    >)
        requires
            self.wf(),
        ensures
            r == check_outcome(self.cache()@, *tx, signer_bytes(signer)),
    {
        self.verify_signature(tx, signer)?;
        self.check_nonce(tx)?;
        self.check_balance(tx)?;
        Ok(())
    }

    /// The admission checks, in order.
    pub fn validate(&self, tx: &UserTransaction) -> (r: Result<(), ValidationError>)
        requires
            self.wf(),
        ensures
            r == check_outcome(self.cache()@, *tx, signer_of(*tx)),
    {
        let signer = Validator::recover(tx);
        self.validate_with_signer(tx, signer)
    }
}

} // verus!

verus! {

/// The signature step rejects exactly when recovery over the canonical
/// hash does not give the sender. Recovery sees the transaction only
/// through its signature and hash input, and that input determines every
/// covered field: sender, recipient, value, nonce, gas price, timestamp and
/// bid. So a transaction that differs from a signed one in any covered
/// field presents a different hash input to recovery.
pub proof fn lemma_signature_check(
    accounts: Map<Seq<u8>, AccountState>,
    a: UserTransaction,
    b: UserTransaction,
)
    ensures
        (check_outcome(accounts, a, signer_of(a)) == Err::<(), ValidationError>(
            ValidationError::InvalidSignature,
        )) <==> signer_of(a) != Some(a.from.bytes@),
        hash_preimage(a) == hash_preimage(b) && a.signature == b.signature ==> signer_of(a)
            == signer_of(b),
        hash_preimage(a) == hash_preimage(b) ==> {
            &&& a.from.bytes@ == b.from.bytes@
            &&& a.to.bytes@ == b.to.bytes@
            &&& a.value@ == b.value@
            &&& a.nonce == b.nonce
            &&& a.gas_price@ == b.gas_price@
            &&& a.timestamp == b.timestamp
            &&& boost_of(a) == boost_of(b)
        },
{
    if hash_preimage(a) == hash_preimage(b) {
        lemma_hash_input_parts(a);
        lemma_hash_input_parts(b);
        let pa = hash_preimage(a);
        lemma_pow256_widths();
        assert(a.value@ < half_base() * half_base());
        assert(b.value@ < half_base() * half_base());
        assert(a.gas_price@ < half_base() * half_base());
        assert(b.gas_price@ < half_base() * half_base());
        assert(boost_of(a) < half_base() * half_base());
        assert(boost_of(b) < half_base() * half_base());
        lemma_be_bytes_injective(a.value@, b.value@, 32);
        lemma_be_bytes_injective(a.nonce as nat, b.nonce as nat, 8);
        lemma_be_bytes_injective(a.gas_price@, b.gas_price@, 32);
        lemma_be_bytes_injective(a.timestamp as nat, b.timestamp as nat, 8);
        lemma_be_bytes_injective(boost_of(a), boost_of(b), 32);
    }
}

/// Where each covered field stands in the hash input.
proof fn lemma_hash_input_parts(t: UserTransaction)
    ensures
        hash_preimage(t).len() == 152,
        hash_preimage(t).subrange(0, 20) == t.from.bytes@,
        hash_preimage(t).subrange(20, 40) == t.to.bytes@,
        hash_preimage(t).subrange(40, 72) == be_bytes(t.value@, 32),
        hash_preimage(t).subrange(72, 80) == be_bytes(t.nonce as nat, 8),
        hash_preimage(t).subrange(80, 112) == be_bytes(t.gas_price@, 32),
        hash_preimage(t).subrange(112, 120) == be_bytes(t.timestamp as nat, 8),
        hash_preimage(t).subrange(120, 152) == be_bytes(boost_of(t), 32),
{
    lemma_be_bytes_len(t.value@, 32);
    lemma_be_bytes_len(t.nonce as nat, 8);
    lemma_be_bytes_len(t.gas_price@, 32);
    lemma_be_bytes_len(t.timestamp as nat, 8);
    lemma_be_bytes_len(boost_of(t), 32);
    let p = hash_preimage(t);
    assert(p.subrange(0, 20) =~= t.from.bytes@);
    assert(p.subrange(20, 40) =~= t.to.bytes@);
    assert(p.subrange(40, 72) =~= be_bytes(t.value@, 32));
    assert(p.subrange(72, 80) =~= be_bytes(t.nonce as nat, 8));
    assert(p.subrange(80, 112) =~= be_bytes(t.gas_price@, 32));
    assert(p.subrange(112, 120) =~= be_bytes(t.timestamp as nat, 8));
    assert(p.subrange(120, 152) =~= be_bytes(boost_of(t), 32));
}

} // verus!
