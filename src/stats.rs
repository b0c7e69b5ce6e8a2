//! The counter of blocks that reached the object store.

use vstd::prelude::*;

verus! {

/// Per-run statistics. Created once with a count of zero; every successful
/// upload adds exactly one.
pub struct Stats {
    pub blocks_processed_count: u64,
}

impl Stats {
    /// The count as a mathematical integer.
    pub open spec fn count(&self) -> nat {
        self.blocks_processed_count as nat
    }

    /// A fresh record: nothing processed yet.
    pub fn new() -> (r: Stats)
        ensures
            r.count() == 0,
    {
        Stats { blocks_processed_count: 0 }
    }

    /// Records one more stored block.
    pub fn increment(&mut self)
        requires
            old(self).count() < u64::MAX,
        ensures
            final(self).count() == old(self).count() + 1,
    {
        self.blocks_processed_count = self.blocks_processed_count + 1;
    }

    /// The current count.
    pub fn snapshot(&self) -> (r: u64)
        ensures
            r == self.blocks_processed_count,
    {
        self.blocks_processed_count
    }
}

} // verus!
