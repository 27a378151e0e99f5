//! The sink that receives the metadata of sealed batches.
use vstd::prelude::*;
use crate::types::BatchMetadata;

verus! {

/// Keeps the metadata of sealed batches in memory, in the order received.
pub struct Registry {
    records: Vec<BatchMetadata>,
}

impl Registry {
    pub closed spec fn records(&self) -> Seq<BatchMetadata> {
        self.records@
    }

    pub fn new() -> (r: Registry)
        ensures
            r.records() == Seq::<BatchMetadata>::empty(),
    {
        Registry { records: Vec::new() }
    }

    /// Records the metadata of one batch.
    pub fn store(&mut self, metadata: BatchMetadata)
        ensures
            final(self).records() == old(self).records().push(metadata),
    {
        self.records.push(metadata);
    }

    pub fn len(&self) -> (r: usize)
        ensures
            r == self.records().len(),
    {
        self.records.len()
    }
}

} // verus!
