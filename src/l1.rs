//! Settings of the L1 collaborator that feeds the forced queue.
use vstd::prelude::*;
use crate::config::L1Config;

verus! {

/// Watches the L1 bridge for forced transactions.
pub struct L1Listener {
    config: L1Config,
}

impl L1Listener {
    pub fn new(config: L1Config) -> (r: L1Listener)
        ensures
            r.start_block() == config.start_block,
    {
        L1Listener { config }
    }

    pub closed spec fn start_block(&self) -> u64 {
        self.config.start_block
    }

    pub fn config(&self) -> (r: &L1Config)
        ensures
            r.start_block == self.start_block(),
    {
        &self.config
    }
}

} // verus!
