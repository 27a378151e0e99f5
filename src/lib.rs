//! The core of an L2 rollup sequencer: admission of user transactions
//! against an account cache, queues for user and forced transactions,
//! ordering policies, and the production of numbered batches under count
//! and gas caps.
use vstd::prelude::*;

pub mod uint;
pub mod types;
pub mod policies;
pub mod scheduler;
pub mod config;
pub mod clock;
pub mod pool;
pub mod engine;
pub mod orchestrator;
pub mod state;
pub mod validation;
pub mod admission;
pub mod registry;
pub mod l1;

pub use uint::U256;
pub use types::{
    AccountState, Address, Batch, BatchMetadata, ConfirmationStatus, ForcedEventType,
    ForcedTransaction, H256, Signature, SoftConfirmation, Transaction, UserTransaction,
    ValidationError,
};
pub use policies::{
    FairBftPolicy, FcfsPolicy, FeePriorityPolicy, Policy, SchedulingPolicy, SchedulingPolicyType,
    TimeBoostPolicy, create_policy,
};
pub use scheduler::Scheduler;
pub use config::{ApiConfig, BatchConfig, Config, DatabaseConfig, L1Config, SchedulingConfig};
pub use pool::{ForcedQueue, TransactionPool};
pub use engine::BatchEngine;
pub use orchestrator::{BatchOrchestrator, SealTimer};
pub use state::StateCache;
pub use validation::Validator;
pub use admission::AppState;
pub use registry::Registry;
pub use l1::L1Listener;

verus! {

} // verus!
