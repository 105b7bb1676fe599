//! When the cache is checked, and how a directory of it is pruned.

use vstd::prelude::*;
use crate::cache::handler::CacheHandler;
use crate::cache::prune::{PruneAction, PrunePlan, PruneResult, WANT_FREE};
use crate::config::Config;
use crate::hvfile::HVFile;

verus! {

/// The seconds between two looks at the free space of the disk.
pub const DISK_CHECK_TICKS: u32 = 300;

/// Checks the cache once in a while.
#[derive(Debug)]
pub struct CachePruner {
    /// Seconds between cache checks when not over limit. Adjusted by the free space.
    pub check_frequency: u32,
    pub cache_check_ticks: u32,
    pub disk_check_ticks: u32,
}

impl CachePruner {
    pub fn new() -> (r: Self)
        ensures
            r == (CachePruner { check_frequency: 60, cache_check_ticks: 0, disk_check_ticks: 0 }),
    {
        CachePruner { check_frequency: 60, cache_check_ticks: 0, disk_check_ticks: 0 }
    }

    /// Whether the cache is checked in this second: it is above its limit, or the time between
    /// two checks is over.
    pub open spec fn is_check_due(&self, cache: CacheHandler, c: crate::config::ConfigView) -> bool {
        cache.used(c) > c.disklimit_bytes || self.cache_check_ticks >= self.check_frequency
    }

    /// Whether the next second can be dealt with: where the cache is checked in it, that check
    /// can be made.
    pub fn can_tick(&self, cache: &CacheHandler, config: &Config) -> (r: bool)
        ensures
            r == (self.is_check_due(*cache, config@) ==> cache.is_checkable(config@)),
    {
        let used: u64 = cache.get_cache_size_with_overhead(config);
        (used <= config.disklimit_bytes && self.cache_check_ticks < self.check_frequency)
            || cache.can_be_checked(config)
    }

    /// A second has passed: what to do about the size of the cache.
    pub fn tick(&mut self, cache: &CacheHandler, config: &Config, now: u64) -> (r: PruneAction)
        requires
            old(self).is_check_due(*cache, config@) ==> cache.is_checkable(config@),
        ensures
            final(self).check_frequency == old(self).check_frequency,
            final(self).disk_check_ticks == old(self).disk_check_ticks,
            if old(self).is_check_due(*cache, config@) {
                &&& cache.is_prune_action(config@, now, r)
                &&& final(self).cache_check_ticks == (if cache.used(config@) > config.disklimit_bytes {
                    old(self).cache_check_ticks
                } else {
                    0
                })
            } else {
                &&& r == (PruneAction::NoPrune { frequency: old(self).check_frequency })
                &&& final(self).cache_check_ticks == old(self).cache_check_ticks + 1
            },
    {
        let used: u64 = cache.get_cache_size_with_overhead(config);
        if used > config.disklimit_bytes {
            return cache.check_prune_action(config, now);
        }
        if self.cache_check_ticks < self.check_frequency {
            self.cache_check_ticks = self.cache_check_ticks + 1;
            return PruneAction::NoPrune { frequency: self.check_frequency };
        }
        self.cache_check_ticks = 0;
        cache.check_prune_action(config, now)
    }

    /// The action was taken: after pruning, the cache is checked again at once.
    pub fn action_taken(&mut self, action: &PruneAction)
        ensures
            *final(self) == (CachePruner {
                check_frequency: match *action {
                    PruneAction::Prune(_) => 0,
                    PruneAction::NoPrune { frequency } => frequency,
                },
                ..*old(self)
            }),
    {
        self.check_frequency = match action {
            PruneAction::Prune(_) => 0,
            PruneAction::NoPrune { frequency } => *frequency,
        };
    }

    /// Whether the free space of the disk is looked at in this second.
    pub fn disk_tick(&mut self) -> (r: bool)
        ensures
            r == (old(self).disk_check_ticks + 1 >= DISK_CHECK_TICKS),
            *final(self) == (CachePruner {
                disk_check_ticks: if r {
                    0
                } else {
                    (old(self).disk_check_ticks + 1) as u32
                },
                ..*old(self)
            }),
    {
        if self.disk_check_ticks >= DISK_CHECK_TICKS - 1 {
            self.disk_check_ticks = 0;
            return true;
        }
        self.disk_check_ticks = self.disk_check_ticks + 1;
        false
    }
}

/// Whether the client has to stop for want of disk space: less is free than the settings, and
/// in any case a hundred megabytes, ask for.
pub fn disk_is_low(config: &Config, free: Option<u64>) -> (r: bool)
    ensures
        r == (!config.skip_free_space_check && (free matches Some(n) && (n < config.diskremaining_bytes
            || n < WANT_FREE))),
{
    if config.skip_free_space_check {
        return false;
    }
    match free {
        Some(n) => {
            let least: u64 = if config.diskremaining_bytes > WANT_FREE {
                config.diskremaining_bytes
            } else {
                WANT_FREE
            };
            n < least
        },
        None => false,
    }
}

// ---------------------------------------------------------------------------
// Pruning a directory
// ---------------------------------------------------------------------------

/// A prune pass that is under way.
#[derive(Debug)]
pub struct PrunePass {
    pub files_deleted: usize,
    pub bytes_deleted: u64,
    /// The time of the oldest of the files that remain.
    pub oldest_last_modified: u64,
    /// How many files remain.
    pub file_count: usize,
}

/// What to do with a file.
#[derive(Debug, Clone, Copy, PartialEq, Eq, Structural)]
pub enum PruneStep {
    Keep,
    /// Delete the file, which has that size by its name, where the name describes one.
    Delete(Option<u32>),
}

impl PrunePass {
    pub fn new() -> (r: Self)
        ensures
            r == (PrunePass {
                files_deleted: 0,
                bytes_deleted: 0,
                oldest_last_modified: u64::MAX,
                file_count: 0,
            }),
    {
        PrunePass {
            files_deleted: 0,
            bytes_deleted: 0,
            oldest_last_modified: u64::MAX,
            file_count: 0,
        }
    }

    /// The pass when one more file remains.
    pub open spec fn with_remaining(&self, last_modified: u64) -> PrunePass {
        PrunePass {
            oldest_last_modified: if last_modified < self.oldest_last_modified {
                last_modified
            } else {
                self.oldest_last_modified
            },
            file_count: (self.file_count + 1) as usize,
            ..*self
        }
    }

    /// Looks at a file of the directory: those from before the cutoff are deleted, the others
    /// remain.
    pub fn see_file(&mut self, name: &str, last_modified: u64, cutoff: u64) -> (r: PruneStep)
        requires
            old(self).file_count < usize::MAX,
        ensures
            *final(self) == (if last_modified < cutoff {
                *old(self)
            } else {
                old(self).with_remaining(last_modified)
            }),
            r == (if last_modified < cutoff {
                PruneStep::Delete(
                    match crate::hvfile::file_of(name@) {
                        Some(v) => Some(v.size),
                        None => None,
                    },
                )
            } else {
                PruneStep::Keep
            }),
    {
        if last_modified < cutoff {
            match HVFile::from_fileid(name) {
                Some(hv) => PruneStep::Delete(Some(hv.size)),
                None => PruneStep::Delete(None),
            }
        } else {
            self.file_remains(last_modified);
            PruneStep::Keep
        }
    }

    /// A file was not deleted, or could not be.
    pub fn file_remains(&mut self, last_modified: u64)
        requires
            old(self).file_count < usize::MAX,
        ensures
            *final(self) == old(self).with_remaining(last_modified),
    {
        if last_modified < self.oldest_last_modified {
            self.oldest_last_modified = last_modified;
        }
        self.file_count = self.file_count + 1;
    }

    /// A file was deleted that has that size by its name. A file whose name describes none was
    /// never counted in the cache.
    pub fn file_deleted(&mut self, size: Option<u32>)
        requires
            old(self).files_deleted < usize::MAX,
        ensures
            *final(self) == (match size {
                Some(n) => PrunePass {
                    files_deleted: (old(self).files_deleted + 1) as usize,
                    bytes_deleted: old(self).bytes_deleted.wrapping_add(n as u64),
                    ..*old(self)
                },
                None => *old(self),
            }),
    {
        if let Some(n) = size {
            self.files_deleted = self.files_deleted + 1;
            self.bytes_deleted = self.bytes_deleted.wrapping_add(n as u64);
        }
    }

    /// What the pass came to at the time `now`: where no file had a time, the range is as old
    /// as now.
    pub fn finish(self, plan: &PrunePlan, now: u64) -> (r: PruneResult)
        ensures
            r.static_range@ == plan.static_range@,
            r.range_dir@ == plan.range_dir@,
            r.file_count == self.file_count,
            r.oldest_last_modified == (if self.oldest_last_modified == u64::MAX {
                now
            } else {
                self.oldest_last_modified
            }),
            r.files_deleted == self.files_deleted,
            r.bytes_deleted == self.bytes_deleted,
    {
        PruneResult {
            static_range: plan.static_range.clone(),
            range_dir: plan.range_dir.clone(),
            file_count: self.file_count,
            oldest_last_modified: if self.oldest_last_modified == u64::MAX {
                now
            } else {
                self.oldest_last_modified
            },
            files_deleted: self.files_deleted,
            bytes_deleted: self.bytes_deleted,
        }
    }
}

/// What remains of some files, given with their times, when those from before a cutoff are
/// deleted.
pub open spec fn remaining_of(files: Seq<u64>, cutoff: u64) -> PrunePass
    decreases files.len(),
{
    if files.len() == 0 {
        PrunePass { files_deleted: 0, bytes_deleted: 0, oldest_last_modified: u64::MAX, file_count: 0 }
    } else {
        let before = remaining_of(files.drop_last(), cutoff);
        if files.last() < cutoff {
            before
        } else {
            before.with_remaining(files.last())
        }
    }
}

/// Where every file from before the cutoff could be deleted, the oldest that remains is not
/// from before it: the range has become younger.
pub proof fn pruned_range_is_younger(files: Seq<u64>, cutoff: u64)
    ensures
        remaining_of(files, cutoff).oldest_last_modified >= cutoff,
    decreases files.len(),
{
    if files.len() > 0 {
        pruned_range_is_younger(files.drop_last(), cutoff);
    }
}

/// The milliseconds between two deletions, so that the disk is not kept busy.
pub fn deletion_pause(plan: &PrunePlan) -> (r: u64)
    ensures
        r == (if plan.fast_delete {
            100u64
        } else {
            1000
        }),
{
    if plan.fast_delete {
        100
    } else {
        1000
    }
}

} // verus!
