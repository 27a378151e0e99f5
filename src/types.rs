//! Records that flow through the sequencer: user and forced transactions,
//! accounts, batches, confirmations and validation errors.
use vstd::prelude::*;
use vstd::string::*;
use crate::uint::{U256, be_bytes, decimal};

verus! {

/// A 20-byte account address.
#[derive(Clone, Copy, Debug)]
pub struct Address {
    pub bytes: [u8; 20],
}

/// A 32-byte hash.
#[derive(Clone, Copy, Debug)]
pub struct H256 {
    pub bytes: [u8; 32],
}

impl Address {
    pub fn zero() -> (r: Address)
        ensures
            r.bytes@ == Seq::new(20, |i: int| 0u8),
    {
        let r = Address { bytes: [0u8; 20] };
        proof {
            assert(r.bytes@ =~= Seq::new(20, |i: int| 0u8));
        }
        r
    }
}

impl H256 {
    pub fn zero() -> (r: H256)
        ensures
            r.bytes@ == Seq::new(32, |i: int| 0u8),
    {
        let r = H256 { bytes: [0u8; 32] };
        proof {
            assert(r.bytes@ =~= Seq::new(32, |i: int| 0u8));
        }
        r
    }
}

/// Byte-wise equality of two arrays of one length.
fn same_bytes<const N: usize>(a: &[u8; N], b: &[u8; N]) -> (r: bool)
    ensures
        r == (a@ == b@),
{
    let mut i: usize = 0;
    while i < N
        invariant
            i <= N,
            a@.len() == N,
            b@.len() == N,
            forall|k: int| 0 <= k < i ==> a@[k] == b@[k],
        decreases N - i,
    {
        if a[i] != b[i] {
            return false;
        }
        i = i + 1;
    }
    proof {
        assert(a@ =~= b@);
    }
    true
}

impl PartialEq for Address {
    fn eq(&self, other: &Address) -> (r: bool) {
        same_bytes(&self.bytes, &other.bytes)
    }
}

impl vstd::std_specs::cmp::PartialEqSpecImpl for Address {
    open spec fn obeys_eq_spec() -> bool {
        true
    }

    open spec fn eq_spec(&self, other: &Address) -> bool {
        self.bytes@ == other.bytes@
    }
}

impl Eq for Address {}

impl PartialEq for H256 {
    fn eq(&self, other: &H256) -> (r: bool) {
        same_bytes(&self.bytes, &other.bytes)
    }
}

impl vstd::std_specs::cmp::PartialEqSpecImpl for H256 {
    open spec fn obeys_eq_spec() -> bool {
        true
    }

    open spec fn eq_spec(&self, other: &H256) -> bool {
        self.bytes@ == other.bytes@
    }
}

impl Eq for H256 {}

/// An ECDSA signature with its recovery value.
#[derive(Clone, Copy, Debug, PartialEq, Eq, Structural)]
pub struct Signature {
    pub r: U256,
    pub s: U256,
    pub v: u64,
}

impl Default for Signature {
    fn default() -> (r: Signature)
        ensures
            r.r@ == 0,
            r.s@ == 0,
            r.v == 0,
    {
        Signature { r: U256::zero(), s: U256::zero(), v: 0 }
    }
}

/// A transaction submitted by a user.
#[derive(Clone, Copy, Debug)]
pub struct UserTransaction {
    pub from: Address,
    pub to: Address,
    pub value: U256,
    pub nonce: u64,
    pub gas_price: U256,
    pub gas_limit: u64,
    pub signature: Signature,
    pub timestamp: u64,
    pub boost_bid: Option<U256>,
}

/// The bid of a transaction, zero where it has none.
pub open spec fn boost_of(tx: UserTransaction) -> nat {
    match tx.boost_bid {
        Some(b) => b@,
        None => 0,
    }
}

/// The bytes that the canonical hash covers: sender, recipient, value, nonce,
/// gas price, timestamp and bid, each integer big-endian.
pub open spec fn hash_preimage(tx: UserTransaction) -> Seq<u8> {
    tx.from.bytes@ + tx.to.bytes@ + be_bytes(tx.value@, 32) + be_bytes(tx.nonce as nat, 8)
        + be_bytes(tx.gas_price@, 32) + be_bytes(tx.timestamp as nat, 8) + be_bytes(
        boost_of(tx),
        32,
    )
}

/// The Keccak-256 digest of a byte string.
pub uninterp spec fn keccak_of(data: Seq<u8>) -> Seq<u8>;

/// Relies on ethers::utils::keccak256: it returns the Keccak-256 digest of its input.
#[verifier::external_body]
fn keccak256(data: &Vec<u8>) -> (r: [u8; 32])
    ensures
        r@ == keccak_of(data@),
{
    ethers::utils::keccak256(data)
}

/// Appends the bytes of an array.
fn append_array<const N: usize>(out: &mut Vec<u8>, a: &[u8; N])
    ensures
        final(out)@ == old(out)@ + a@,
{
    let ghost start = out@;
    let mut i: usize = 0;
    while i < N
        invariant
            i <= N,
            a@.len() == N,
            out@ == start + a@.subrange(0, i as int),
        decreases N - i,
    {
        out.push(a[i]);
        proof {
            assert(out@ =~= start + a@.subrange(0, i + 1));
        }
        i = i + 1;
    }
    proof {
        assert(a@.subrange(0, N as int) =~= a@);
    }
}

/// Appends a vector of bytes.
fn append_vec(out: &mut Vec<u8>, v: Vec<u8>)
    ensures
        final(out)@ == old(out)@ + v@,
{
    let mut v = v;
    out.append(&mut v);
}

impl UserTransaction {
    /// The bytes that the hash covers.
    pub fn hash_input(&self) -> (r: Vec<u8>)
        ensures
            r@ == hash_preimage(*self),
    {
        let mut data: Vec<u8> = Vec::new();
        append_array(&mut data, &self.from.bytes);
        append_array(&mut data, &self.to.bytes);
        append_vec(&mut data, self.value.to_be_bytes());
        append_vec(&mut data, crate::uint::u64_be_bytes(self.nonce));
        append_vec(&mut data, self.gas_price.to_be_bytes());
        append_vec(&mut data, crate::uint::u64_be_bytes(self.timestamp));
        let bid = match self.boost_bid {
            Some(b) => b,
            None => U256::zero(),
        };
        append_vec(&mut data, bid.to_be_bytes());
        proof {
            assert(data@ =~= hash_preimage(*self));
        }
        data
    }

    /// The canonical hash: Keccak-256 over the covered fields.
    pub fn hash(&self) -> (r: H256)
        ensures
            r.bytes@ == keccak_of(hash_preimage(*self)),
    {
        let data = self.hash_input();
        H256 { bytes: keccak256(&data) }
    }
}

#[derive(Clone, Copy, Debug, PartialEq, Eq, Structural)]
pub enum ForcedEventType {
    Deposit,
    ForcedExit,
}

/// A transaction that arrived from L1.
#[derive(Clone, Copy, Debug)]
pub struct ForcedTransaction {
    pub tx_hash: H256,
    pub from: Address,
    pub to: Address,
    pub value: U256,
    pub nonce: u64,
    pub gas_limit: u64,
    pub l1_tx_hash: H256,
    pub l1_block_number: u64,
    pub event_type: ForcedEventType,
    pub timestamp: u64,
}

/// A transaction of a batch, tagged with where it came from.
#[derive(Clone, Copy, Debug)]
pub enum Transaction {
    Normal(UserTransaction),
    Forced(ForcedTransaction),
}

pub open spec fn gas_of(tx: Transaction) -> nat {
    match tx {
        Transaction::Normal(t) => t.gas_limit as nat,
        Transaction::Forced(t) => t.gas_limit as nat,
    }
}

impl Transaction {
    pub fn gas_limit(&self) -> (r: u64)
        ensures
            r as nat == gas_of(*self),
    {
        match self {
            Transaction::Normal(t) => t.gas_limit,
            Transaction::Forced(t) => t.gas_limit,
        }
    }

    pub fn is_forced(&self) -> (r: bool)
        ensures
            r == (*self is Forced),
    {
        match self {
            Transaction::Normal(_) => false,
            Transaction::Forced(_) => true,
        }
    }
}

/// What the sequencer knows of an account.
#[derive(Clone, Copy, Debug)]
pub struct AccountState {
    pub address: Address,
    pub balance: U256,
    pub nonce: u64,
}

/// A sealed batch.
#[derive(Clone, Debug)]
pub struct Batch {
    pub batch_id: u64,
    pub transactions: Vec<Transaction>,
    pub prev_state_root: H256,
    pub timestamp: u64,
}

/// What the registry keeps of a sealed batch.
#[derive(Clone, Debug)]
pub struct BatchMetadata {
    pub batch_id: u64,
    pub tx_count: usize,
    pub forced_tx_count: usize,
    pub timestamp: u64,
    pub scheduling_policy: String,
}

/// Why a user transaction was refused.
#[derive(Clone, Copy, Debug, PartialEq, Eq, Structural)]
pub enum ValidationError {
    InvalidSignature,
    InvalidNonce { expected: u64, got: u64 },
    InsufficientBalance { required: U256, available: U256 },
}

/// The human-readable text of an error.
pub open spec fn error_message(e: ValidationError) -> Seq<char> {
    match e {
        ValidationError::InvalidSignature => "Invalid transaction signature"@,
        ValidationError::InvalidNonce { expected, got } => "Invalid nonce: expected "@ + decimal(
            expected as nat,
        ) + ", got "@ + decimal(got as nat),
        ValidationError::InsufficientBalance { required, available } => "Insufficient balance: required "@
            + decimal(required@) + ", available "@ + decimal(available@),
    }
}

impl ValidationError {
    /// The human-readable text of the error.
    pub fn message(&self) -> (r: String)
        ensures
            r@ == error_message(*self),
    {
        match self {
            ValidationError::InvalidSignature => String::from_str("Invalid transaction signature"),
            ValidationError::InvalidNonce { expected, got } => {
                let mut s = String::from_str("Invalid nonce: expected ");
                s.append(U256::from_u64(*expected).to_decimal().as_str());
                s.append(", got ");
                s.append(U256::from_u64(*got).to_decimal().as_str());
                s
            },
            ValidationError::InsufficientBalance { required, available } => {
                let mut s = String::from_str("Insufficient balance: required ");
                s.append(required.to_decimal().as_str());
                s.append(", available ");
                s.append(available.to_decimal().as_str());
                s
            },
        }
    }
}

#[derive(Clone, Debug)]
pub enum ConfirmationStatus {
    Accepted,
    Rejected { reason: String },
}

/// The answer to one submission.
#[derive(Clone, Debug)]
pub struct SoftConfirmation {
    pub tx_hash: H256,
    pub status: ConfirmationStatus,
    pub timestamp: u64,
}

} // verus!
