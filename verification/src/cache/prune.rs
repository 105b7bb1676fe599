//! When the cache is pruned, and how far.

use vstd::prelude::*;

verus! {

/// Spans of time in milliseconds.
pub const ONE_DAY: u64 = 86_400_000;

pub const THREE_DAYS: u64 = 259_200_000;

pub const SEVEN_DAYS: u64 = 604_800_000;

pub const THIRTY_DAYS: u64 = 2_592_000_000;

pub const ONE_MONTH: u64 = 2_592_000_000;

pub const THREE_MONTHS: u64 = 7_776_000_000;

pub const SIX_MONTHS: u64 = 15_552_000_000;

/// The space that pruning keeps free, in bytes.
pub const WANT_FREE: u64 = 104_857_600;

/// Information needed to execute a prune pass without holding the cache lock.
#[derive(Debug)]
pub struct PrunePlan {
    pub static_range: String,
    pub range_dir: String,
    /// Files with `last_modified < cutoff` should be deleted.
    pub cutoff: u64,
    pub fast_delete: bool,
}

/// Result of executing a prune pass.
#[derive(Debug)]
pub struct PruneResult {
    pub static_range: String,
    pub range_dir: String,
    /// Number of files remaining in the directory after pruning.
    pub file_count: usize,
    /// Oldest last-modified timestamp among remaining files.
    pub oldest_last_modified: u64,
    /// Number of files that the pass deleted.
    pub files_deleted: usize,
    /// How many bytes those files held.
    pub bytes_deleted: u64,
}

/// The recommended action after checking cache state.
#[derive(Debug)]
pub enum PruneAction {
    /// Cache is over limit - prune this range.
    Prune(PrunePlan),
    /// Cache is within limit - adjust check frequency.
    NoPrune { frequency: u32 },
}

/// The space between a size and its limit.
pub open spec fn free_space(limit: u64, size: u64) -> int {
    if limit > size {
        limit - size
    } else {
        0
    }
}

/// The number of seconds between two checks: the less free space, the more often.
pub open spec fn frequency_for(free: int, want_free: u64) -> u32 {
    if free > want_free * 10 {
        600
    } else if free > want_free {
        60
    } else {
        10
    }
}

/// Compute the recommended pruner check frequency based on free space.
pub fn prune_frequency(cache_limit: u64, cache_size_with_overhead: u64, want_free: u64) -> (r: u32)
    requires
        want_free * 10 <= u64::MAX,
    ensures
        r == frequency_for(free_space(cache_limit, cache_size_with_overhead), want_free),
{
    let free: u64 = if cache_limit > cache_size_with_overhead {
        cache_limit - cache_size_with_overhead
    } else {
        0
    };
    if free > want_free * 10 {
        600
    } else if free > want_free {
        60
    } else {
        10
    }
}

/// With less free space the cache is checked at least as often.
pub proof fn less_space_is_checked_more_often(limit: u64, size: u64, larger: u64, want_free: u64)
    requires
        size <= larger,
    ensures
        frequency_for(free_space(limit, larger), want_free) <= frequency_for(
            free_space(limit, size),
            want_free,
        ),
{
}

} // verus!
