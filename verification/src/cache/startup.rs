//! The state of the cache at startup: from what was saved, or from a look at every file.

use vstd::prelude::*;
use crate::cache::ages::RangeAges;
use crate::cache::lru::{LRU_CACHE_SIZE, LruState};
use crate::cache::persistent::PersistentCacheState;
use crate::config::Config;
use crate::hvfile::HVFile;

verus! {

/// Files that were modified within this time, in milliseconds, count as recently accessed.
pub const RECENT_ACCESS: u64 = 604_800_000;

/// The state of the cache at startup.
#[derive(Debug)]
pub struct StartupCacheState {
    pub lru: LruState,
    pub cache_count: u32,
    pub cache_size: u64,
    pub static_range_oldest: RangeAges,
}

/// A file in a directory of the cache.
#[derive(Debug)]
pub struct FoundFile {
    pub name: String,
    pub is_file: bool,
    pub size: u64,
    /// When the file was last modified, in milliseconds since 1970.
    pub modified: u64,
    /// The digest of the file, where it was read.
    pub digest: Option<String>,
}

/// What a directory of the cache has to lose.
#[derive(Debug)]
pub struct RangeScan {
    pub remove: Vec<String>,
    pub remove_dir: bool,
}

// ---------------------------------------------------------------------------
// From what was saved
// ---------------------------------------------------------------------------

/// A table of full length that begins as another does.
pub open spec fn completed_table(t: Seq<u16>) -> Seq<u16> {
    Seq::new(
        LRU_CACHE_SIZE as nat,
        |i: int|
            if i < t.len() {
                t[i]
            } else {
                0u16
            },
    )
}

/// The state of the cache as it was saved.
pub fn from_persistent(state: PersistentCacheState) -> (r: StartupCacheState)
    ensures
        r.lru.wf(),
        r.lru.lru_cache_table@ == completed_table(state.lru_cache_table@),
        r.lru.lru_clear_pointer == state.lru_clear_pointer,
        r.cache_count == state.cache_count,
        r.cache_size == state.cache_size,
        r.static_range_oldest@ == state.static_range_ages@,
{
    let mut lru = LruState::new();
    let len: usize = if state.lru_cache_table.len() < LRU_CACHE_SIZE {
        state.lru_cache_table.len()
    } else {
        LRU_CACHE_SIZE
    };
    let mut i: usize = 0;
    while i < len
        invariant
            i <= len <= LRU_CACHE_SIZE,
            len <= state.lru_cache_table@.len(),
            lru.lru_cache_table@.len() == LRU_CACHE_SIZE,
            forall|j: int|
                0 <= j < LRU_CACHE_SIZE ==> #[trigger] lru.lru_cache_table@[j] == (if j < i {
                    state.lru_cache_table@[j]
                } else {
                    0u16
                }),
        decreases len - i,
    {
        lru.lru_cache_table.set(i, state.lru_cache_table[i]);
        i += 1;
    }
    assert(lru.lru_cache_table@ =~= completed_table(state.lru_cache_table@));
    lru.lru_clear_pointer = state.lru_clear_pointer;
    StartupCacheState {
        lru,
        cache_count: state.cache_count,
        cache_size: state.cache_size,
        static_range_oldest: state.static_range_ages,
    }
}

// ---------------------------------------------------------------------------
// From a look at every file
// ---------------------------------------------------------------------------

/// Whether a file stays in the cache: its name describes it, it has the size that the name
/// says, and its digest where that is verified, and its range is assigned to the client.
pub open spec fn is_kept(f: FoundFile, verify: bool, ranges: Seq<Seq<char>>) -> bool {
    &&& f.is_file
    &&& crate::hvfile::file_of(f.name@) matches Some(v)
    &&& f.size == v.size
    &&& verify ==> crate::text::opt_text(f.digest) == Some(v.hash)
    &&& ranges.contains(v.hash.take(4))
}

/// What has been seen of a directory, and the counters then.
pub ghost struct ScanView {
    pub count: u32,
    pub size: u64,
    pub table: Seq<u16>,
    pub oldest: u64,
    pub found: bool,
    pub removed: Seq<Seq<char>>,
}

/// What has been seen once another file is.
pub open spec fn scan_step(
    s: ScanView,
    f: FoundFile,
    verify: bool,
    ranges: Seq<Seq<char>>,
    cutoff: u64,
) -> ScanView {
    if !f.is_file {
        s
    } else if !is_kept(f, verify, ranges) {
        ScanView { removed: s.removed.push(f.name@), ..s }
    } else {
        let v = crate::hvfile::file_of(f.name@)->0;
        ScanView {
            count: s.count.wrapping_add(1),
            size: s.size.wrapping_add(v.size as u64),
            table: if f.modified > cutoff {
                crate::cache::lru::marked(
                    s.table,
                    vstd::utf8::encode_utf8(crate::hvfile::fileid_of(v)),
                )
            } else {
                s.table
            },
            oldest: if f.modified < s.oldest {
                f.modified
            } else {
                s.oldest
            },
            found: true,
            ..s
        }
    }
}

/// What has been seen once all these files are.
pub open spec fn scanned(
    s: ScanView,
    files: Seq<FoundFile>,
    verify: bool,
    ranges: Seq<Seq<char>>,
    cutoff: u64,
) -> ScanView
    decreases files.len(),
{
    if files.len() == 0 {
        s
    } else {
        scan_step(
            scanned(s, files.drop_last(), verify, ranges, cutoff),
            files.last(),
            verify,
            ranges,
            cutoff,
        )
    }
}

/// The time since which files count as recently accessed.
pub fn recent_cutoff(now: u64) -> (r: u64)
    ensures
        r == (if now >= RECENT_ACCESS {
            (now - RECENT_ACCESS) as u64
        } else {
            0
        }),
{
    if now >= RECENT_ACCESS {
        now - RECENT_ACCESS
    } else {
        0
    }
}

/// Whether a file has to be read to see if it stays in the cache.
pub fn needs_digest(name: &str, is_file: bool, size: u64, verify: bool) -> (r: bool)
    ensures
        r == (verify && is_file && (crate::hvfile::file_of(name@) matches Some(v) && size == v.size)),
{
    if !verify || !is_file {
        return false;
    }
    match HVFile::from_fileid(name) {
        Some(hv) => size == hv.size as u64,
        None => false,
    }
}

/// The file that stays in the cache, if it does.
fn kept_file(f: &FoundFile, verify: bool, config: &Config) -> (r: Option<HVFile>)
    requires
        f.is_file,
    ensures
        match r {
            Some(hv) => is_kept(*f, verify, config@.static_ranges) && crate::hvfile::file_of(f.name@)
                == Some(hv@),
            None => !is_kept(*f, verify, config@.static_ranges),
        },
{
    let hv = match HVFile::from_fileid(f.name.as_str()) {
        Some(hv) => hv,
        None => return None,
    };
    if f.size != hv.size as u64 {
        return None;
    }
    if verify {
        let matches_hash = match &f.digest {
            Some(d) => crate::text::str_eq(d.as_str(), hv.hash.as_str()),
            None => false,
        };
        if !matches_hash {
            return None;
        }
    }
    if !config.is_static_range(hv.static_range().as_str()) {
        return None;
    }
    Some(hv)
}

impl StartupCacheState {
    /// An empty cache.
    pub fn new() -> (r: Self)
        ensures
            r.lru.wf(),
            r.lru.lru_clear_pointer == 0,
            forall|i: int| 0 <= i < LRU_CACHE_SIZE ==> r.lru.lru_cache_table@[i] == 0,
            r.cache_count == 0,
            r.cache_size == 0,
            r.static_range_oldest@ == Map::<Seq<char>, u64>::empty(),
    {
        StartupCacheState {
            lru: LruState::new(),
            cache_count: 0,
            cache_size: 0,
            static_range_oldest: RangeAges::new(),
        }
    }

    /// What is known before a directory is looked at.
    pub open spec fn before_scan(&self) -> ScanView {
        ScanView {
            count: self.cache_count,
            size: self.cache_size,
            table: self.lru.lru_cache_table@,
            oldest: u64::MAX,
            found: false,
            removed: seq![],
        }
    }

    /// Looks at the files of one directory, which lies in another: counts those that stay in
    /// the cache, and notes the oldest of them for the range. Files that do not stay are to be
    /// removed, and so is a directory in which none does.
    pub fn scan_range(
        &mut self,
        l1_name: &str,
        l2_name: &str,
        files: &Vec<FoundFile>,
        verify: bool,
        config: &Config,
        cutoff: u64,
    ) -> (r: RangeScan)
        requires
            old(self).lru.wf(),
        ensures
            final(self).lru.wf(),
            ({
                let s = scanned(
                    old(self).before_scan(),
                    files@,
                    verify,
                    config@.static_ranges,
                    cutoff,
                );
                &&& final(self).cache_count == s.count
                &&& final(self).cache_size == s.size
                &&& final(self).lru.lru_cache_table@ == s.table
                &&& final(self).lru.lru_clear_pointer == old(self).lru.lru_clear_pointer
                &&& final(self).static_range_oldest@ == (if s.found {
                    old(self).static_range_oldest@.insert(l1_name@ + l2_name@, s.oldest)
                } else {
                    old(self).static_range_oldest@
                })
                &&& crate::text::texts(r.remove@) == s.removed
                &&& r.remove_dir == !s.found
            }),
            r.remove_dir == !exists|i: int|
                0 <= i < files@.len() && is_kept(#[trigger] files@[i], verify, config@.static_ranges),
            !r.remove_dir ==> final(self).static_range_oldest@.contains_key(l1_name@ + l2_name@) && exists|
                i: int,
            |
                0 <= i < files@.len() && is_kept(#[trigger] files@[i], verify, config@.static_ranges)
                    && final(self).static_range_oldest@[l1_name@ + l2_name@] == files@[i].modified,
            forall|i: int|
                0 <= i < files@.len() && is_kept(#[trigger] files@[i], verify, config@.static_ranges)
                    ==> final(self).static_range_oldest@[l1_name@ + l2_name@] <= files@[i].modified,
    {
        let ghost before = self.before_scan();
        let ghost ages = self.static_range_oldest@;
        let ghost pointer = self.lru.lru_clear_pointer;
        let ghost ranges = config@.static_ranges;
        let mut remove: Vec<String> = Vec::new();
        let mut oldest: u64 = u64::MAX;
        let mut found = false;
        let mut i: usize = 0;
        assert(files@.take(0) =~= Seq::<FoundFile>::empty());
        assert(crate::text::texts(remove@) =~= seq![]);
        while i < files.len()
            invariant
                i <= files@.len(),
                self.lru.wf(),
                self.lru.lru_clear_pointer == pointer,
                self.static_range_oldest@ == ages,
                ranges == config@.static_ranges,
                ({
                    let s = scanned(before, files@.take(i as int), verify, ranges, cutoff);
                    &&& self.cache_count == s.count
                    &&& self.cache_size == s.size
                    &&& self.lru.lru_cache_table@ == s.table
                    &&& oldest == s.oldest
                    &&& found == s.found
                    &&& crate::text::texts(remove@) == s.removed
                }),
            decreases files.len() - i,
        {
            let ghost now = files@.take(i + 1);
            assert(now.drop_last() =~= files@.take(i as int));
            assert(now.last() == files@[i as int]);
            let f = &files[i];
            if f.is_file {
                match kept_file(f, verify, config) {
                    None => {
                        let ghost gone = crate::text::texts(remove@);
                        remove.push(f.name.clone());
                        assert(crate::text::texts(remove@) =~= gone.push(f.name@));
                    },
                    Some(hv) => {
                        found = true;
                        self.cache_count = self.cache_count.wrapping_add(1);
                        self.cache_size = self.cache_size.wrapping_add(hv.size as u64);
                        if f.modified < oldest {
                            oldest = f.modified;
                        }
                        if f.modified > cutoff {
                            hv.mark_in(&mut self.lru);
                        }
                    },
                }
            }
            i += 1;
        }
        assert(files@.take(i as int) =~= files@);
        proof {
            age_is_of_the_oldest_kept_file(before, files@, verify, ranges, cutoff);
        }
        if found {
            let range = crate::text::concat(l1_name, l2_name);
            let _ = self.static_range_oldest.insert(range.as_str(), oldest);
        }
        RangeScan { remove, remove_dir: !found }
    }
}

/// A file that stays is never removed, and one that does not always is.
pub proof fn kept_files_stay(s: ScanView, f: FoundFile, verify: bool, ranges: Seq<Seq<char>>, cutoff: u64)
    requires
        f.is_file,
    ensures
        is_kept(f, verify, ranges) ==> scan_step(s, f, verify, ranges, cutoff).removed == s.removed
            && scan_step(s, f, verify, ranges, cutoff).found,
        !is_kept(f, verify, ranges) ==> scan_step(s, f, verify, ranges, cutoff).removed == s.removed.push(
            f.name@,
        ) && scan_step(s, f, verify, ranges, cutoff).count == s.count,
{
}

/// A regular file under the ID of a file stays where it has the size of that file, its range
/// is among the assigned ones and, where digests are verified, its digest is the hash; under
/// any other circumstances it does not.
pub proof fn whole_assigned_files_stay(
    v: crate::hvfile::HVFileView,
    f: FoundFile,
    verify: bool,
    ranges: Seq<Seq<char>>,
)
    requires
        crate::hvfile::describable(v),
        f.name@ == crate::hvfile::fileid_of(v),
    ensures
        is_kept(f, verify, ranges) <==> {
            &&& f.is_file
            &&& f.size == v.size
            &&& !verify || (f.digest is Some && f.digest->0@ == v.hash)
            &&& ranges.contains(seq![v.hash[0], v.hash[1], v.hash[2], v.hash[3]])
        },
{
    crate::hvfile::fileid_describes_its_file(v);
    assert(v.hash.take(4) =~= seq![v.hash[0], v.hash[1], v.hash[2], v.hash[3]]);
}

/// Behind a directory in which some file stays, the noted age is at most that of each file that
/// stays, and is the age of one of them; where none stays, none is noted.
pub proof fn age_is_of_the_oldest_kept_file(
    s: ScanView,
    files: Seq<FoundFile>,
    verify: bool,
    ranges: Seq<Seq<char>>,
    cutoff: u64,
)
    requires
        !s.found,
        s.oldest == u64::MAX,
    ensures
        ({
            let t = scanned(s, files, verify, ranges, cutoff);
            &&& t.found <==> exists|i: int|
                0 <= i < files.len() && is_kept(#[trigger] files[i], verify, ranges)
            &&& forall|i: int|
                0 <= i < files.len() && is_kept(#[trigger] files[i], verify, ranges) ==> t.oldest
                    <= files[i].modified
            &&& t.found ==> exists|i: int|
                0 <= i < files.len() && is_kept(#[trigger] files[i], verify, ranges) && t.oldest
                    == files[i].modified
        }),
    decreases files.len(),
{
    let t = scanned(s, files, verify, ranges, cutoff);
    if files.len() > 0 {
        let less = files.drop_last();
        let last = files.len() - 1;
        let b = scanned(s, less, verify, ranges, cutoff);
        age_is_of_the_oldest_kept_file(s, less, verify, ranges, cutoff);
        assert(files[last] == files.last());
        if b.found {
            let i = choose|i: int|
                0 <= i < less.len() && is_kept(#[trigger] less[i], verify, ranges) && b.oldest
                    == less[i].modified;
            assert(files[i] == less[i]);
            assert(is_kept(files[i], verify, ranges));
        }
        assert forall|i: int|
            0 <= i < files.len() && is_kept(#[trigger] files[i], verify, ranges) implies t.oldest
            <= files[i].modified && t.found by {
            if i < last {
                assert(less[i] == files[i]);
            }
        }
        if t.found && !b.found {
            assert(is_kept(files[last], verify, ranges));
            assert(b.oldest == u64::MAX) by {
                lemma_nothing_found(s, less, verify, ranges, cutoff);
            }
        }
    }
}

proof fn lemma_nothing_found(
    s: ScanView,
    files: Seq<FoundFile>,
    verify: bool,
    ranges: Seq<Seq<char>>,
    cutoff: u64,
)
    requires
        !scanned(s, files, verify, ranges, cutoff).found,
    ensures
        scanned(s, files, verify, ranges, cutoff).oldest == s.oldest,
    decreases files.len(),
{
    if files.len() > 0 {
        lemma_nothing_found(s, files.drop_last(), verify, ranges, cutoff);
    }
}

/// The noted age does not depend on the order in which the files of a directory are seen.
pub proof fn age_does_not_depend_on_the_order(
    s: ScanView,
    files: Seq<FoundFile>,
    others: Seq<FoundFile>,
    verify: bool,
    ranges: Seq<Seq<char>>,
    cutoff: u64,
)
    requires
        !s.found,
        s.oldest == u64::MAX,
        forall|f: FoundFile| #[trigger] files.contains(f) <==> others.contains(f),
    ensures
        ({
            let t = scanned(s, files, verify, ranges, cutoff);
            let u = scanned(s, others, verify, ranges, cutoff);
            t.found == u.found && (t.found ==> t.oldest == u.oldest)
        }),
{
    lemma_no_younger(s, files, others, verify, ranges, cutoff);
    lemma_no_younger(s, others, files, verify, ranges, cutoff);
}

proof fn lemma_no_younger(
    s: ScanView,
    files: Seq<FoundFile>,
    others: Seq<FoundFile>,
    verify: bool,
    ranges: Seq<Seq<char>>,
    cutoff: u64,
)
    requires
        !s.found,
        s.oldest == u64::MAX,
        forall|f: FoundFile| #[trigger] files.contains(f) ==> others.contains(f),
    ensures
        ({
            let t = scanned(s, files, verify, ranges, cutoff);
            let u = scanned(s, others, verify, ranges, cutoff);
            t.found ==> u.found && u.oldest <= t.oldest
        }),
{
    let t = scanned(s, files, verify, ranges, cutoff);
    age_is_of_the_oldest_kept_file(s, files, verify, ranges, cutoff);
    age_is_of_the_oldest_kept_file(s, others, verify, ranges, cutoff);
    if t.found {
        let i = choose|i: int|
            0 <= i < files.len() && is_kept(#[trigger] files[i], verify, ranges) && t.oldest
                == files[i].modified;
        assert(files.contains(files[i]));
        let j = choose|j: int| 0 <= j < others.len() && others[j] == files[i];
        assert(is_kept(others[j], verify, ranges));
    }
}

/// Each file that stays adds one to the count and its size to the total; each regular file that
/// does not stay is the next to be removed; anything else changes nothing.
pub proof fn each_file_is_counted_or_removed(
    s: ScanView,
    files: Seq<FoundFile>,
    f: FoundFile,
    verify: bool,
    ranges: Seq<Seq<char>>,
    cutoff: u64,
)
    ensures
        ({
            let b = scanned(s, files, verify, ranges, cutoff);
            let t = scanned(s, files.push(f), verify, ranges, cutoff);
            let stays = is_kept(f, verify, ranges);
            &&& stays && b.count < u32::MAX ==> t.count == b.count + 1
            &&& stays && b.size + f.size <= u64::MAX ==> t.size == b.size + f.size
            &&& !stays ==> t.count == b.count && t.size == b.size && t.table == b.table
            &&& f.is_file && !stays ==> t.removed.len() == b.removed.len() + 1 && t.removed.last() == f.name@
            &&& !f.is_file || stays ==> t.removed == b.removed
            &&& b.removed.is_prefix_of(t.removed)
            &&& stays && f.modified <= cutoff ==> t.table == b.table
        }),
{
    assert(files.push(f).drop_last() =~= files);
}

/// A file that stays and was modified behind the cutoff is marked as accessed.
pub proof fn recent_files_are_marked(
    s: ScanView,
    files: Seq<FoundFile>,
    f: FoundFile,
    verify: bool,
    ranges: Seq<Seq<char>>,
    cutoff: u64,
)
    requires
        scanned(s, files, verify, ranges, cutoff).table.len() == LRU_CACHE_SIZE,
        is_kept(f, verify, ranges),
        f.modified > cutoff,
    ensures
        crate::cache::lru::is_marked(
            scanned(s, files.push(f), verify, ranges, cutoff).table,
            vstd::utf8::encode_utf8(crate::hvfile::fileid_of(crate::hvfile::file_of(f.name@)->0)),
        ),
{
    assert(files.push(f).drop_last() =~= files);
    let b = scanned(s, files, verify, ranges, cutoff);
    let v = crate::hvfile::file_of(f.name@)->0;
    crate::hvfile::fileid_names_a_slot(v);
    crate::cache::lru::marking_is_idempotent(
        b.table,
        vstd::utf8::encode_utf8(crate::hvfile::fileid_of(v)),
    );
}

// ---------------------------------------------------------------------------
// Cleaning up
// ---------------------------------------------------------------------------

/// A file or a directory in a directory of the first level.
#[derive(Debug)]
pub struct FoundEntry {
    pub name: String,
    pub is_dir: bool,
}

/// What to do with an entry of the cache.
#[derive(Debug)]
pub enum CleanupStep {
    /// The entry of the first level is no directory: remove it.
    RemoveEntry,
    /// The directory of the first level is empty: remove it.
    RemoveDir,
    /// Remove the file of that name in it.
    RemoveFile(String),
    /// Move the file of that name in it to where it belongs.
    Move { name: String, target: String },
}

/// What to do with an entry, with its texts as characters.
pub ghost enum CleanupView {
    RemoveEntry,
    RemoveDir,
    RemoveFile(Seq<char>),
    Move(Seq<char>, Seq<char>),
}

impl View for CleanupStep {
    type V = CleanupView;

    open spec fn view(&self) -> CleanupView {
        match self {
            CleanupStep::RemoveEntry => CleanupView::RemoveEntry,
            CleanupStep::RemoveDir => CleanupView::RemoveDir,
            CleanupStep::RemoveFile(n) => CleanupView::RemoveFile(n@),
            CleanupStep::Move { name, target } => CleanupView::Move(name@, target@),
        }
    }
}

/// Steps with their texts as characters.
pub open spec fn cleanup_views(v: Seq<CleanupStep>) -> Seq<CleanupView> {
    Seq::new(v.len(), |i: int| v[i]@)
}

/// What to do with a file that lies in a directory of the first level: it goes to where it
/// belongs, or away where it is none or its range is not assigned to the client.
pub open spec fn file_cleanup(name: Seq<char>, ranges: Seq<Seq<char>>, cache_dir: Seq<char>) -> CleanupView {
    match crate::hvfile::file_of(name) {
        Some(v) => if ranges.contains(v.hash.take(4)) {
            CleanupView::Move(name, crate::hvfile::cached_at(v, cache_dir))
        } else {
            CleanupView::RemoveFile(name)
        },
        None => CleanupView::RemoveFile(name),
    }
}

/// What to do with the files among some entries. Directories stay.
pub open spec fn entries_cleanup(
    entries: Seq<FoundEntry>,
    ranges: Seq<Seq<char>>,
    cache_dir: Seq<char>,
) -> Seq<CleanupView>
    decreases entries.len(),
{
    if entries.len() == 0 {
        seq![]
    } else {
        let before = entries_cleanup(entries.drop_last(), ranges, cache_dir);
        if entries.last().is_dir {
            before
        } else {
            before.push(file_cleanup(entries.last().name@, ranges, cache_dir))
        }
    }
}

/// What to do with an entry of the first level and what lies in it: only directories with
/// something in them stay, and files in them move a level down.
pub fn cleanup_entry(is_dir: bool, entries: &Vec<FoundEntry>, config: &Config) -> (r: Vec<CleanupStep>)
    ensures
        cleanup_views(r@) == (if !is_dir {
            seq![CleanupView::RemoveEntry]
        } else if entries@.len() == 0 {
            seq![CleanupView::RemoveDir]
        } else {
            entries_cleanup(entries@, config@.static_ranges, config.cache_dir@)
        }),
{
    let mut steps: Vec<CleanupStep> = Vec::new();
    assert(cleanup_views(steps@) =~= seq![]);
    if !is_dir {
        steps.push(CleanupStep::RemoveEntry);
        assert(cleanup_views(steps@) =~= seq![CleanupView::RemoveEntry]);
        return steps;
    }
    if entries.len() == 0 {
        steps.push(CleanupStep::RemoveDir);
        assert(cleanup_views(steps@) =~= seq![CleanupView::RemoveDir]);
        return steps;
    }
    let ghost ranges = config@.static_ranges;
    let mut i: usize = 0;
    assert(entries@.take(0) =~= Seq::<FoundEntry>::empty());
    while i < entries.len()
        invariant
            i <= entries@.len(),
            ranges == config@.static_ranges,
            cleanup_views(steps@) == entries_cleanup(entries@.take(i as int), ranges, config.cache_dir@),
        decreases entries.len() - i,
    {
        let ghost now = entries@.take(i + 1);
        assert(now.drop_last() =~= entries@.take(i as int));
        assert(now.last() == entries@[i as int]);
        let e = &entries[i];
        if !e.is_dir {
            let step = cleanup_file(e.name.as_str(), config);
            let ghost before = cleanup_views(steps@);
            steps.push(step);
            assert(cleanup_views(steps@) =~= before.push(step@));
        }
        i += 1;
    }
    assert(entries@.take(i as int) =~= entries@);
    steps
}

fn cleanup_file(name: &str, config: &Config) -> (r: CleanupStep)
    ensures
        r@ == file_cleanup(name@, config@.static_ranges, config.cache_dir@),
{
    match HVFile::from_fileid(name) {
        Some(hv) => {
            if config.is_static_range(hv.static_range().as_str()) {
                CleanupStep::Move {
                    name: String::from_str(name),
                    target: hv.cache_path(config.cache_dir.as_str()),
                }
            } else {
                CleanupStep::RemoveFile(String::from_str(name))
            }
        },
        None => CleanupStep::RemoveFile(String::from_str(name)),
    }
}

/// Whether a file in the directory for temporary files is left over from an earlier run.
pub open spec fn is_leftover(name: Seq<char>) -> bool {
    &&& !"log_"@.is_prefix_of(name)
    &&& !"pcache_"@.is_prefix_of(name)
    &&& name != "client_login"@
}

/// Whether a file in the directory for temporary files is left over from an earlier run.
pub fn is_orphaned_temp_file(name: &str) -> (r: bool)
    ensures
        r == is_leftover(name@),
{
    !crate::text::has_prefix(name, "log_") && !crate::text::has_prefix(name, "pcache_")
        && !crate::text::str_eq(name, "client_login")
}

} // verus!
