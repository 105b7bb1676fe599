//! The cache while the client runs: its counters, and what is pruned from it.

use vstd::prelude::*;
use crate::cache::ages::RangeAges;
use crate::cache::lru::LruState;
use crate::cache::persistent::{PersistentCacheState, SaveStep};
use crate::cache::prune::{
    ONE_DAY, ONE_MONTH, PruneAction, PrunePlan, PruneResult, SEVEN_DAYS, SIX_MONTHS, THIRTY_DAYS,
    THREE_DAYS, THREE_MONTHS, WANT_FREE,
};
use crate::cache::startup::StartupCacheState;
use crate::config::Config;
use crate::error::{ErrorView, HathError};
use crate::hvfile::HVFile;
use crate::stats::Stats;

verus! {

/// The nanoseconds between two verifications of files.
pub const VERIFICATION_COOLDOWN: u64 = 2_000_000_000;

/// The nanoseconds after which a file that is accessed gets a new date.
pub const DATE_REFRESH: u64 = 604_800_000_000_000;

/// Cache metadata and operations.
#[derive(Debug)]
pub struct CacheHandler {
    pub lru: LruState,
    pub cache_count: u32,
    pub cache_size: u64,
    pub static_range_oldest: RangeAges,
    pub cache_loaded: bool,
    /// When a file was last verified, in nanoseconds of a steady clock.
    pub last_file_verification: u64,
}

/// The size of the files with what their last blocks waste: half a block each.
pub open spec fn size_with_overhead(actual: u64, count: u32, blocksize: u64) -> u64 {
    actual.wrapping_add((count as u64).wrapping_mul(blocksize) / 2)
}

// ---------------------------------------------------------------------------
// Startup
// ---------------------------------------------------------------------------

/// Whether there is too little space for the cache to grow to its limit.
pub open spec fn lacks_space(c: crate::config::ConfigView, count: u32, size: u64, free: Option<u64>) -> bool {
    let used = size_with_overhead(size, count, c.filesystem_blocksize);
    !c.skip_free_space_check && (free matches Some(n) && n < crate::cache::prune::free_space(
        c.disklimit_bytes,
        used,
    ))
}

/// Whether the cache is empty though the client has been given ranges.
pub open spec fn lost_its_files(c: crate::config::ConfigView, count: u32) -> bool {
    count < 1 && c.static_range_count > 20
}

/// Checks that the directory of the cache can be read, where it exists.
pub fn check_cache_root(present: bool, readable: bool) -> (r: Result<(), HathError>)
    ensures
        match r {
            Ok(()) => !present || readable,
            Err(e) => present && !readable && e@ == ErrorView::Fatal("cannot read cache directory"@),
        },
{
    if present && !readable {
        return Err(HathError::Fatal(String::from_str("cannot read cache directory")));
    }
    Ok(())
}

impl CacheHandler {
    pub open spec fn wf(&self) -> bool {
        self.lru.wf()
    }

    /// The cache at the time `now`, from its state at startup, where it is safe to go on:
    /// there is space for it to grow, and it has not lost the files of its ranges. `free` is
    /// the free space on its disk, where that is known.
    pub fn new(
        state: StartupCacheState,
        config: &Config,
        stats: &mut Stats,
        free: Option<u64>,
        now: u64,
    ) -> (r: Result<Self, HathError>)
        requires
            state.lru.wf(),
        ensures
            *final(stats) == (Stats {
                cache_count: state.cache_count,
                cache_size: size_with_overhead(
                    state.cache_size,
                    state.cache_count,
                    config.filesystem_blocksize,
                ),
                ..*old(stats)
            }),
            if lacks_space(config@, state.cache_count, state.cache_size, free) {
                r matches Err(e) && e@ == ErrorView::Fatal("insufficient disk space for cache"@)
            } else if lost_its_files(config@, state.cache_count) {
                r matches Err(e) && e@ == ErrorView::Fatal("empty cache with static ranges assigned"@)
            } else {
                r matches Ok(h) && h == (CacheHandler {
                    lru: state.lru,
                    cache_count: state.cache_count,
                    cache_size: state.cache_size,
                    static_range_oldest: state.static_range_oldest,
                    cache_loaded: true,
                    last_file_verification: now,
                })
            },
    {
        let used: u64 = Self::cache_size_with_overhead(state.cache_size, state.cache_count, config);
        stats.set_cache_count(state.cache_count);
        stats.set_cache_size(used);
        if !config.skip_free_space_check {
            if let Some(n) = free {
                let needed: u64 = if config.disklimit_bytes > used {
                    config.disklimit_bytes - used
                } else {
                    0
                };
                if n < needed {
                    return Err(
                        HathError::Fatal(String::from_str("insufficient disk space for cache")),
                    );
                }
            }
        }
        if state.cache_count < 1 && config.static_range_count > 20 {
            return Err(
                HathError::Fatal(String::from_str("empty cache with static ranges assigned")),
            );
        }
        Ok(
            CacheHandler {
                lru: state.lru,
                cache_count: state.cache_count,
                cache_size: state.cache_size,
                static_range_oldest: state.static_range_oldest,
                cache_loaded: true,
                last_file_verification: now,
            },
        )
    }

    /// The state to save for the next run, where the cache was loaded.
    pub fn persistent_state(&self) -> (r: Option<PersistentCacheState>)
        ensures
            match r {
                Some(s) => self.cache_loaded && s@ == (crate::cache::persistent::StateView {
                    cache_count: self.cache_count,
                    cache_size: self.cache_size,
                    lru_clear_pointer: self.lru.lru_clear_pointer,
                    static_range_ages: self.static_range_oldest@,
                    lru_cache_table: self.lru.lru_cache_table@,
                }) && s.static_range_ages.pairs() == self.static_range_oldest.pairs(),
                None => !self.cache_loaded,
            },
    {
        if !self.cache_loaded {
            return None;
        }
        let mut table: Vec<u16> = Vec::new();
        let mut i: usize = 0;
        while i < self.lru.lru_cache_table.len()
            invariant
                i <= self.lru.lru_cache_table@.len(),
                table@ == self.lru.lru_cache_table@.take(i as int),
            decreases self.lru.lru_cache_table.len() - i,
        {
            table.push(self.lru.lru_cache_table[i]);
            i += 1;
            assert(table@ =~= self.lru.lru_cache_table@.take(i as int));
        }
        assert(table@ =~= self.lru.lru_cache_table@);
        Some(
            PersistentCacheState {
                cache_count: self.cache_count,
                cache_size: self.cache_size,
                lru_clear_pointer: self.lru.lru_clear_pointer,
                static_range_ages: self.static_range_oldest.clone(),
                lru_cache_table: table,
            },
        )
    }

    /// The steps that save the state of the cache for the next run, where it was loaded.
    pub fn save_persistent_data(&self) -> (r: Option<Vec<SaveStep>>)
        ensures
            r is Some == self.cache_loaded,
            r matches Some(steps) ==> crate::cache::persistent::are_save_steps(
                steps@,
                self.cache_count,
                self.cache_size,
                self.lru.lru_clear_pointer,
                self.static_range_oldest.pairs(),
                self.lru.lru_cache_table@,
            ),
    {
        match self.persistent_state() {
            Some(state) => Some(crate::cache::persistent::save(&state)),
            None => None,
        }
    }

    // -----------------------------------------------------------------------
    // Counters
    // -----------------------------------------------------------------------

    pub fn cache_size_with_overhead(actual: u64, count: u32, config: &Config) -> (r: u64)
        ensures
            r == size_with_overhead(actual, count, config.filesystem_blocksize),
    {
        actual.wrapping_add((count as u64).wrapping_mul(config.filesystem_blocksize) / 2)
    }

    /// The size of the cache with what its files' last blocks waste.
    pub open spec fn used(&self, c: crate::config::ConfigView) -> u64 {
        size_with_overhead(self.cache_size, self.cache_count, c.filesystem_blocksize)
    }

    pub fn get_cache_size_with_overhead(&self, config: &Config) -> (r: u64)
        ensures
            r == self.used(config@),
    {
        Self::cache_size_with_overhead(self.cache_size, self.cache_count, config)
    }

    /// Whether a statistic holds the counters of the cache, and is the same otherwise.
    pub open spec fn is_reported(&self, c: crate::config::ConfigView, before: Stats, after: Stats) -> bool {
        after == (Stats { cache_count: self.cache_count, cache_size: self.used(c), ..before })
    }

    fn report(&self, config: &Config, stats: &mut Stats)
        ensures
            self.is_reported(config@, *old(stats), *final(stats)),
    {
        stats.set_cache_count(self.cache_count);
        stats.set_cache_size(self.get_cache_size_with_overhead(config));
    }

    /// Whether no file is to be verified now: the last was less than two seconds ago. If not,
    /// one is, from now on.
    pub fn is_file_verification_on_cooldown(&mut self, now: u64) -> (r: bool)
        ensures
            r == (now < old(self).last_file_verification + VERIFICATION_COOLDOWN),
            *final(self) == (if r {
                *old(self)
            } else {
                CacheHandler { last_file_verification: now, ..*old(self) }
            }),
    {
        let elapsed: u64 = if now > self.last_file_verification {
            now - self.last_file_verification
        } else {
            0
        };
        if elapsed < VERIFICATION_COOLDOWN {
            return true;
        }
        self.last_file_verification = now;
        false
    }

    /// The file to delete and where it lies, where the ID describes one.
    pub fn delete_file_from_cache(fileid: &str, config: &Config) -> (r: Option<(HVFile, String)>)
        ensures
            match r {
                Some((hv, path)) => crate::hvfile::file_of(fileid@) == Some(hv@) && path@
                    == crate::hvfile::cached_at(hv@, config.cache_dir@),
                None => crate::hvfile::file_of(fileid@) is None,
            },
    {
        match HVFile::from_fileid(fileid) {
            Some(hv) => {
                let path = hv.cache_path(config.cache_dir.as_str());
                Some((hv, path))
            },
            None => None,
        }
    }

    /// A file was removed from the cache.
    pub fn file_deleted(&mut self, hv_file: &HVFile, config: &Config, stats: &mut Stats)
        ensures
            *final(self) == (CacheHandler {
                cache_count: old(self).cache_count.wrapping_sub(1),
                cache_size: old(self).cache_size.wrapping_sub(hv_file.size as u64),
                ..*old(self)
            }),
            final(self).is_reported(config@, *old(stats), *final(stats)),
    {
        self.cache_count = self.cache_count.wrapping_sub(1);
        self.cache_size = self.cache_size.wrapping_sub(hv_file.size as u64);
        self.report(config, stats);
    }

    /// Marks the file as accessed of late. Says whether it was not marked before.
    pub fn mark_recently_accessed(&mut self, hv_file: &HVFile) -> (r: bool)
        requires
            old(self).wf(),
        ensures
            final(self).wf(),
            ({
                let id = vstd::utf8::encode_utf8(crate::hvfile::fileid_of(hv_file@));
                &&& r == !crate::cache::lru::is_marked(old(self).lru.lru_cache_table@, id)
                &&& final(self).lru.lru_cache_table@ == crate::cache::lru::marked(
                    old(self).lru.lru_cache_table@,
                    id,
                )
                &&& *final(self) == (CacheHandler { lru: final(self).lru, ..*old(self) })
                &&& final(self).lru.lru_clear_pointer == old(self).lru.lru_clear_pointer
            }),
    {
        hv_file.mark_in(&mut self.lru)
    }

    /// Whether a file that is newly marked gets a new date: it is older than a week. Both
    /// times are in nanoseconds since 1970.
    pub fn needs_new_date(newly_marked: bool, skip_meta_update: bool, modified: u64, now: u64) -> (r: bool)
        ensures
            r == (newly_marked && !skip_meta_update && modified + DATE_REFRESH < now),
    {
        newly_marked && !skip_meta_update && now > DATE_REFRESH && modified < now - DATE_REFRESH
    }

    /// A file was added to the cache at the time `now`, in milliseconds since 1970: it is
    /// counted and marked, and its range has an age from now on if it had none.
    pub fn register_proxy_file(&mut self, hv_file: &HVFile, config: &Config, stats: &mut Stats, now: u64)
        requires
            old(self).wf(),
        ensures
            final(self).wf(),
            final(self).cache_count == old(self).cache_count.wrapping_add(1),
            final(self).cache_size == old(self).cache_size.wrapping_add(hv_file.size as u64),
            final(self).lru.lru_cache_table@ == crate::cache::lru::marked(
                old(self).lru.lru_cache_table@,
                vstd::utf8::encode_utf8(crate::hvfile::fileid_of(hv_file@)),
            ),
            final(self).lru.lru_clear_pointer == old(self).lru.lru_clear_pointer,
            final(self).static_range_oldest@ == (if old(self).static_range_oldest@.contains_key(
                hv_file.hash@.take(4),
            ) {
                old(self).static_range_oldest@
            } else {
                old(self).static_range_oldest@.insert(hv_file.hash@.take(4), now)
            }),
            final(self).cache_loaded == old(self).cache_loaded,
            final(self).last_file_verification == old(self).last_file_verification,
            final(self).is_reported(config@, *old(stats), *final(stats)),
    {
        self.cache_count = self.cache_count.wrapping_add(1);
        self.cache_size = self.cache_size.wrapping_add(hv_file.size as u64);
        self.report(config, stats);
        let _ = hv_file.mark_in(&mut self.lru);
        let range = hv_file.static_range();
        if self.static_range_oldest.get(range.as_str()).is_none() {
            let _ = self.static_range_oldest.insert(range.as_str(), now);
        }
    }

    // -----------------------------------------------------------------------
    // Pruning
    // -----------------------------------------------------------------------

    /// Whether no range has older files than this one.
    pub open spec fn is_oldest(&self, range: Seq<char>) -> bool {
        &&& self.static_range_oldest@.contains_key(range)
        &&& forall|k: Seq<char>| #[trigger]
            self.static_range_oldest@.contains_key(k) ==> self.static_range_oldest@[range]
                <= self.static_range_oldest@[k]
    }

    /// Whether two directories can be made of the name of each range with the oldest files.
    pub open spec fn has_sound_ranges(&self) -> bool {
        forall|k: Seq<char>| #[trigger] self.is_oldest(k) ==> is_range_name(k)
    }

    /// Whether two directories can be made of the name of each range with the oldest files.
    pub fn ranges_are_sound(&self) -> (r: bool)
        ensures
            r == self.has_sound_ranges(),
    {
        let least: u64 = match self.static_range_oldest.oldest() {
            Some((_, age)) => age,
            None => {
                assert(forall|k: Seq<char>| !self.static_range_oldest@.contains_key(k));
                return true;
            },
        };
        let entries = self.static_range_oldest.entries();
        let ghost pairs = self.static_range_oldest.pairs();
        proof {
            crate::cache::ages::lemma_map_of(pairs);
        }
        let mut i: usize = 0;
        while i < entries.len()
            invariant
                i <= entries@.len(),
                pairs == crate::cache::ages::pairs_of(entries@),
                crate::cache::ages::map_of(pairs) == self.static_range_oldest@,
                crate::cache::ages::distinct(pairs),
                forall|k: Seq<char>| #[trigger]
                    self.static_range_oldest@.contains_key(k) ==> least <= self.static_range_oldest@[k],
                forall|j: int|
                    0 <= j < i && (#[trigger] pairs[j]).1 == least ==> is_range_name(pairs[j].0),
            decreases entries.len() - i,
        {
            assert(pairs[i as int] == (entries@[i as int].0@, entries@[i as int].1));
            if entries[i].1 == least && !names_range(entries[i].0.as_str()) {
                proof {
                    crate::cache::ages::lemma_map_of(pairs);
                    assert(self.static_range_oldest@.contains_pair(pairs[i as int].0, least));
                    assert(self.is_oldest(pairs[i as int].0));
                }
                return false;
            }
            i += 1;
        }
        proof {
            crate::cache::ages::lemma_map_of(pairs);
            assert forall|k: Seq<char>| #[trigger] self.is_oldest(k) implies is_range_name(k) by {
                let j = choose|j: int| 0 <= j < pairs.len() && (#[trigger] pairs[j]).0 == k;
                assert(self.static_range_oldest@.contains_pair(pairs[j].0, pairs[j].1));
                assert(exists|m: Seq<char>|
                    self.static_range_oldest@.contains_key(m) && self.static_range_oldest@[m] == least);
                assert(pairs[j].1 == least);
            }
        }
        true
    }

    /// How many bytes pruning has to free: as many as are missing from the space that is kept
    /// free. Below the limit, that asks for files and ranges to prune.
    pub open spec fn to_free(&self, c: crate::config::ConfigView) -> u64 {
        let used = self.used(c);
        if used > c.disklimit_bytes {
            WANT_FREE.wrapping_add(used).wrapping_sub(c.disklimit_bytes)
        } else if self.can_prune() && c.disklimit_bytes - used < WANT_FREE {
            (WANT_FREE - (c.disklimit_bytes - used)) as u64
        } else {
            0
        }
    }

    /// Whether there are files and ranges to prune.
    pub open spec fn can_prune(&self) -> bool {
        self.cache_count > 0 && !self.static_range_oldest@.is_empty()
    }

    /// Whether a range is to be pruned: there is anything to free and to prune.
    pub open spec fn must_prune(&self, c: crate::config::ConfigView) -> bool {
        self.to_free(c) != 0 && self.can_prune()
    }

    /// Whether a check of the cache's size can be made: where a range is to be pruned, its
    /// directory can be told.
    pub open spec fn is_checkable(&self, c: crate::config::ConfigView) -> bool {
        self.must_prune(c) ==> self.has_sound_ranges()
    }

    /// Whether a check of the cache's size can be made.
    pub fn can_be_checked(&self, config: &Config) -> (r: bool)
        ensures
            r == self.is_checkable(config@),
    {
        let (bytes_to_free, _) = self.bytes_to_free(config);
        bytes_to_free == 0 || !self.has_prunable() || self.ranges_are_sound()
    }

    fn has_prunable(&self) -> (r: bool)
        ensures
            r == self.can_prune(),
    {
        let oldest = self.static_range_oldest.oldest();
        proof {
            if oldest is Some {
                assert(self.static_range_oldest@.contains_key((oldest->0).0@));
            } else {
                assert(self.static_range_oldest@.is_empty());
            }
        }
        self.cache_count > 0 && oldest.is_some()
    }

    /// How many bytes pruning has to free, and whether with haste.
    fn bytes_to_free(&self, config: &Config) -> (r: (u64, bool))
        ensures
            r.0 == self.to_free(config@),
            r.1 == (self.used(config@) > config.disklimit_bytes),
    {
        let limit: u64 = config.disklimit_bytes;
        let used: u64 = self.get_cache_size_with_overhead(config);
        if used > limit {
            (WANT_FREE.wrapping_add(used).wrapping_sub(limit), true)
        } else if self.has_prunable() && limit - used < WANT_FREE {
            (WANT_FREE - (limit - used), false)
        } else {
            (0, false)
        }
    }

    /// Whether an action is the right one for the cache at the time `now`: one of the ranges
    /// with the oldest files is pruned where there is anything to free and to prune.
    pub open spec fn is_prune_action(&self, c: crate::config::ConfigView, now: u64, a: PruneAction) -> bool {
        if !self.must_prune(c) {
            a == (PruneAction::NoPrune {
                frequency: crate::cache::prune::frequency_for(
                    crate::cache::prune::free_space(c.disklimit_bytes, self.used(c)),
                    WANT_FREE,
                ),
            })
        } else {
            &&& a matches PruneAction::Prune(p)
            &&& self.is_oldest(p.static_range@)
            &&& p.cutoff == cutoff_for(self.static_range_oldest@[p.static_range@], now)
            &&& p.fast_delete == (self.used(c) > c.disklimit_bytes)
            &&& p.range_dir@ == range_dir_of(p.static_range@, c.cache_dir)
        }
    }

    /// What to do about the size of the cache at the time `now`, in milliseconds since 1970.
    pub fn check_prune_action(&self, config: &Config, now: u64) -> (r: PruneAction)
        requires
            self.is_checkable(config@),
        ensures
            self.is_prune_action(config@, now, r),
    {
        let (bytes_to_free, fast_delete) = self.bytes_to_free(config);
        if bytes_to_free == 0 || !self.has_prunable() {
            let used: u64 = self.get_cache_size_with_overhead(config);
            return PruneAction::NoPrune {
                frequency: crate::cache::prune::prune_frequency(config.disklimit_bytes, used, WANT_FREE),
            };
        }
        match self.static_range_oldest.oldest() {
            Some((static_range, age)) => {
                assert(self.is_oldest(static_range@));
                let cutoff: u64 = prune_cutoff(age, now);
                let range_dir = directory_of(static_range.as_str(), config.cache_dir.as_str());
                PruneAction::Prune(PrunePlan { static_range, range_dir, cutoff, fast_delete })
            },
            None => {
                assert(self.static_range_oldest@.is_empty());
                PruneAction::NoPrune { frequency: 10 }
            },
        }
    }

    /// Applies the results of a prune pass: the age of the range is that of its oldest file,
    /// or gone with its files, and what was deleted is not counted any more. Says whether
    /// the directory of the range is to be removed.
    pub fn apply_prune_result(&mut self, result: &PruneResult, config: &Config, stats: &mut Stats) -> (r:
        bool)
        ensures
            r == (result.file_count == 0),
            final(self).static_range_oldest@ == (if r {
                old(self).static_range_oldest@.remove(result.static_range@)
            } else {
                old(self).static_range_oldest@.insert(
                    result.static_range@,
                    result.oldest_last_modified,
                )
            }),
            final(self).cache_count == old(self).cache_count.wrapping_sub(result.files_deleted as u32),
            final(self).cache_size == old(self).cache_size.wrapping_sub(result.bytes_deleted),
            final(self).lru == old(self).lru,
            final(self).cache_loaded == old(self).cache_loaded,
            final(self).last_file_verification == old(self).last_file_verification,
            final(self).is_reported(config@, *old(stats), *final(stats)),
    {
        let empty = result.file_count == 0;
        if empty {
            let _ = self.static_range_oldest.remove(result.static_range.as_str());
        } else {
            let _ = self.static_range_oldest.insert(
                result.static_range.as_str(),
                result.oldest_last_modified,
            );
        }
        let deleted: u32 = #[verifier::truncate]
        (result.files_deleted as u32);
        self.cache_count = self.cache_count.wrapping_sub(deleted);
        self.cache_size = self.cache_size.wrapping_sub(result.bytes_deleted);
        self.report(config, stats);
        empty
    }
}

/// How many bytes a character takes in UTF-8.
pub open spec fn utf8_width(c: char) -> int {
    if (c as u32) < 0x80 {
        1
    } else if (c as u32) < 0x800 {
        2
    } else if (c as u32) < 0x1_0000 {
        3
    } else {
        4
    }
}

/// How many characters take the first `n` bytes of a text in UTF-8, where a character ends
/// there.
pub open spec fn chars_in(s: Seq<char>, n: int) -> Option<int>
    decreases s.len(),
{
    if n == 0 {
        Some(0)
    } else if n < 0 || s.len() == 0 {
        None
    } else {
        match chars_in(s.drop_first(), n - utf8_width(s[0])) {
            Some(k) => Some(k + 1),
            None => None,
        }
    }
}

/// Whether a name can be cut behind its second and its fourth byte: two directories can be made
/// of it.
pub open spec fn is_range_name(s: Seq<char>) -> bool {
    chars_in(s, 2) is Some && chars_in(s, 4) is Some
}

/// Where the files of a range lie: in a directory of its first two bytes, and in that one of
/// the next two.
pub open spec fn range_dir_of(range: Seq<char>, cache_dir: Seq<char>) -> Seq<char> {
    let i = chars_in(range, 2)->0;
    let j = chars_in(range, 4)->0;
    crate::utils::joined(crate::utils::joined(cache_dir, range.subrange(0, i)), range.subrange(i, j))
}

/// Until when the files of a range are pruned: the older the oldest, the longer the time
/// behind it.
pub open spec fn cutoff_for(age: u64, now: u64) -> u64 {
    if age + SIX_MONTHS < now {
        age.wrapping_add(THIRTY_DAYS)
    } else if age + THREE_MONTHS < now {
        age.wrapping_add(SEVEN_DAYS)
    } else if age + ONE_MONTH < now {
        age.wrapping_add(THREE_DAYS)
    } else {
        age.wrapping_add(ONE_DAY)
    }
}

fn is_older(age: u64, span: u64, now: u64) -> (r: bool)
    ensures
        r == (age + span < now),
{
    now > span && age < now - span
}

/// Until when the files of a range are pruned whose oldest has that age.
pub fn prune_cutoff(age: u64, now: u64) -> (r: u64)
    ensures
        r == cutoff_for(age, now),
{
    if is_older(age, SIX_MONTHS, now) {
        age.wrapping_add(THIRTY_DAYS)
    } else if is_older(age, THREE_MONTHS, now) {
        age.wrapping_add(SEVEN_DAYS)
    } else if is_older(age, ONE_MONTH, now) {
        age.wrapping_add(THREE_DAYS)
    } else {
        age.wrapping_add(ONE_DAY)
    }
}

fn width_of(c: char) -> (r: usize)
    ensures
        r == utf8_width(c),
{
    let n: u32 = c as u32;
    if n < 0x80 {
        1
    } else if n < 0x800 {
        2
    } else if n < 0x1_0000 {
        3
    } else {
        4
    }
}

proof fn lemma_chars_in(s: Seq<char>, n: int)
    ensures
        chars_in(s, n) matches Some(k) ==> 0 <= k <= s.len() && k <= n,
    decreases s.len(),
{
    if n > 0 && s.len() > 0 {
        lemma_chars_in(s.drop_first(), n - utf8_width(s[0]));
    }
}

/// More bytes take more characters.
proof fn lemma_chars_grow(s: Seq<char>, m: int, n: int)
    requires
        0 <= m <= n,
    ensures
        chars_in(s, m) is Some && chars_in(s, n) is Some ==> chars_in(s, m)->0 <= chars_in(s, n)->0,
    decreases s.len(),
{
    lemma_chars_in(s, n);
    if m > 0 && s.len() > 0 {
        let w = utf8_width(s[0]);
        if w <= m {
            lemma_chars_grow(s.drop_first(), m - w, n - w);
        }
    }
}

fn count_chars(cs: &Vec<char>, n: usize) -> (r: Option<usize>)
    requires
        n < 1000,
    ensures
        match r {
            Some(k) => chars_in(cs@, n as int) == Some(k as int) && k <= cs@.len(),
            None => chars_in(cs@, n as int) is None,
        },
{
    let mut left: usize = n;
    let mut k: usize = 0;
    assert(cs@.skip(0) =~= cs@);
    while left > 0
        invariant
            k <= cs@.len(),
            left <= n,
            match chars_in(cs@.skip(k as int), left as int) {
                Some(m) => chars_in(cs@, n as int) == Some(k + m),
                None => chars_in(cs@, n as int) is None,
            },
        decreases left,
    {
        if k == cs.len() {
            return None;
        }
        let w: usize = width_of(cs[k]);
        assert(cs@.skip(k as int).drop_first() =~= cs@.skip(k + 1));
        if w > left {
            return None;
        }
        left = left - w;
        k += 1;
    }
    Some(k)
}

fn names_range(s: &str) -> (r: bool)
    ensures
        r == is_range_name(s@),
{
    let cs = crate::text::to_chars(s);
    count_chars(&cs, 2).is_some() && count_chars(&cs, 4).is_some()
}

fn directory_of(range: &str, cache_dir: &str) -> (r: String)
    requires
        is_range_name(range@),
    ensures
        r@ == range_dir_of(range@, cache_dir@),
{
    let cs = crate::text::to_chars(range);
    proof {
        lemma_chars_grow(range@, 2, 4);
    }
    let i: usize = match count_chars(&cs, 2) {
        Some(i) => i,
        None => 0,
    };
    let j: usize = match count_chars(&cs, 4) {
        Some(j) => j,
        None => i,
    };
    let first = crate::text::substring(&cs, 0, i);
    let second = crate::text::substring(&cs, i, j);
    let outer = crate::utils::join_path(cache_dir, first.as_str());
    crate::utils::join_path(outer.as_str(), second.as_str())
}

/// A range whose name starts with four ASCII characters lies in a directory of the first two,
/// in that one of the next two.
pub proof fn ascii_ranges_have_two_and_two(range: Seq<char>, cache_dir: Seq<char>)
    requires
        range.len() >= 4,
        forall|i: int| 0 <= i < 4 ==> (#[trigger] range[i]) as u32 <= 0x7f,
    ensures
        is_range_name(range),
        range_dir_of(range, cache_dir) == crate::utils::joined(
            crate::utils::joined(cache_dir, range.subrange(0, 2)),
            range.subrange(2, 4),
        ),
{
    let a = range.drop_first();
    let b = a.drop_first();
    let c = b.drop_first();
    assert(a[0] == range[1] && b[0] == range[2] && c[0] == range[3]);
    assert(utf8_width(range[0]) == 1 && utf8_width(range[1]) == 1 && utf8_width(range[2]) == 1
        && utf8_width(range[3]) == 1);
    assert(chars_in(c.drop_first(), 0) == Some(0int));
    assert(chars_in(c, 1) == Some(1int));
    assert(chars_in(b, 2) == Some(2int));
    assert(chars_in(a, 3) == Some(3int));
    assert(chars_in(b, 0) == Some(0int));
    assert(chars_in(a, 1) == Some(1int));
}

/// Deleting a file undoes what adding it did to the counters, and so to the space that is used.
pub proof fn deleting_undoes_adding(
    before: CacheHandler,
    added: CacheHandler,
    deleted: CacheHandler,
    file_size: u32,
    c: crate::config::ConfigView,
)
    requires
        added.cache_count == before.cache_count.wrapping_add(1),
        added.cache_size == before.cache_size.wrapping_add(file_size as u64),
        deleted == (CacheHandler {
            cache_count: added.cache_count.wrapping_sub(1),
            cache_size: added.cache_size.wrapping_sub(file_size as u64),
            ..added
        }),
    ensures
        deleted.cache_count == before.cache_count,
        deleted.cache_size == before.cache_size,
        deleted.used(c) == before.used(c),
{
}

/// A cache above its limit is pruned as long as there is anything to prune.
pub proof fn full_cache_is_pruned(h: CacheHandler, c: crate::config::ConfigView, now: u64, a: PruneAction)
    requires
        h.used(c) > c.disklimit_bytes,
        h.used(c) - c.disklimit_bytes <= u64::MAX - WANT_FREE,
        h.can_prune(),
        h.is_prune_action(c, now, a),
    ensures
        a is Prune,
        a->Prune_0.fast_delete,
{
}

/// A cache with enough free space is left alone.
pub proof fn roomy_cache_is_left_alone(h: CacheHandler, c: crate::config::ConfigView, now: u64, a: PruneAction)
    requires
        h.used(c) + WANT_FREE <= c.disklimit_bytes,
        h.is_prune_action(c, now, a),
    ensures
        a is NoPrune,
{
}

} // verus!
