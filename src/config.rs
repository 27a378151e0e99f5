//! The configuration that the sequencer consumes.
use vstd::prelude::*;
use crate::policies::SchedulingPolicyType;

verus! {

#[derive(Clone, Debug)]
pub struct Config {
    pub batch: BatchConfig,
    pub scheduling: SchedulingConfig,
    pub api: ApiConfig,
    pub l1: L1Config,
    pub database: DatabaseConfig,
}

/// Caps and cadence of batch production.
#[derive(Clone, Copy, Debug)]
pub struct BatchConfig {
    /// At most this many transactions per batch (forced ones permitting).
    pub max_batch_size: usize,
    /// A batch is attempted once this long has passed since the last.
    pub timeout_interval_ms: u64,
    /// Advisory; not enforced.
    pub min_batch_size: usize,
    /// The total gas limit of a batch stays at or below this.
    pub max_gas_limit: u64,
}

#[derive(Clone, Copy, Debug)]
pub struct SchedulingConfig {
    pub policy_type: SchedulingPolicyType,
}

#[derive(Clone, Debug)]
pub struct ApiConfig {
    pub host: String,
    pub port: u16,
}

#[derive(Clone, Debug)]
pub struct L1Config {
    pub rpc_url: String,
    pub bridge_address: String,
    pub start_block: u64,
}

#[derive(Clone, Debug)]
pub struct DatabaseConfig {
    pub url: String,
}

} // verus!
