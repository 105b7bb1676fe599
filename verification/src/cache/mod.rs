//! The file cache: bookkeeping, pruning, and its state between runs.

pub mod ages;
pub mod blacklist;
pub mod handler;
pub mod limits;
pub mod lru;
pub mod persistent;
pub mod prune;
pub mod pruner;
pub mod startup;
