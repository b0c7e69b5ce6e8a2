//! Verified core of a block uploader: each block-stream message becomes one
//! object in an object store, a bounded number of uploads runs at a time, and
//! a shared counter records the blocks that were stored.

pub mod key;
pub mod scheduler;
pub mod stats;
pub mod upload;
