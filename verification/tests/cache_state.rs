//! The bookkeeping of the cache, in memory and between runs.

use hath_rs::cache::ages::RangeAges;
use hath_rs::cache::handler::{check_cache_root, CacheHandler};
use hath_rs::cache::lru::{LruState, LRU_CACHE_SIZE};
use hath_rs::cache::persistent::{
    artifacts, load_checked, save, try_load, PersistentCacheState, SaveStep,
};
use hath_rs::cache::prune::{prune_frequency, PruneAction, PruneResult, ONE_DAY, SEVEN_DAYS, THIRTY_DAYS, THREE_DAYS, WANT_FREE};
use hath_rs::cache::pruner::{deletion_pause, disk_is_low, CachePruner, PrunePass, PruneStep};
use hath_rs::cache::startup::{
    cleanup_entry, from_persistent, is_orphaned_temp_file, needs_digest, recent_cutoff, CleanupStep,
    FoundEntry, FoundFile, StartupCacheState,
};
use hath_rs::config::{CliArgs, Config, LoginFile};
use hath_rs::hvfile::HVFile;
use hath_rs::stats::Stats;
use hath_rs::utils::sha1_bytes;

const VALID_FILEID: &str = "aabbccddeeff00112233445566778899aabbccdd-4-jpg";
const WRONG_SIZE_FILEID: &str = "aabbccddeeff00112233445566778899aabbccde-5-jpg";
const UNASSIGNED_FILEID: &str = "ccddeeff00112233445566778899aabbccddaabb-4-jpg";

fn test_config() -> Config {
    let mut args = CliArgs::default();
    args.client_id = Some(12345);
    args.client_key = Some("abcde12345abcde12345".to_string());
    Config::load(args, LoginFile::Missing).unwrap()
}

fn config_with_static_range() -> Config {
    let mut config = test_config();
    config.static_ranges.push("aabb".to_string());
    config
}

fn files_of(steps: Vec<SaveStep>) -> (String, Vec<u8>, Vec<u8>) {
    let mut info = String::new();
    let mut ages = Vec::new();
    let mut lru = Vec::new();
    for step in steps {
        match step {
            SaveStep::RemoveInfo => info = String::new(),
            SaveStep::WriteAges(b) => ages = b,
            SaveStep::WriteLru(b) => lru = b,
            SaveStep::WriteInfo(t) => info = t,
        }
    }
    (info, ages, lru)
}

#[test]
fn mark_recently_accessed_sets_bit_once() {
    let mut lru = LruState::new();

    assert!(lru.mark_recently_accessed("abcd00000f"));
    assert!(!lru.mark_recently_accessed("abcd00000f"));
}

#[test]
fn mark_recently_accessed_ignores_short_fileids() {
    let mut lru = LruState::new();

    assert!(!lru.mark_recently_accessed("short"));
}

#[test]
fn cycle_clears_seventeen_entries_and_advances_pointer() {
    let mut lru = LruState::new();
    lru.lru_cache_table[16] = 1;
    lru.lru_cache_table[17] = 1;

    lru.cycle();

    assert_eq!(lru.lru_cache_table[16], 0);
    assert_eq!(lru.lru_cache_table[17], 1);
    assert_eq!(lru.lru_clear_pointer, 17);
}

#[test]
fn cycle_wraps_at_table_end() {
    let mut lru = LruState::new();
    lru.lru_clear_pointer = LRU_CACHE_SIZE - 1;
    lru.lru_cache_table[LRU_CACHE_SIZE - 1] = 1;

    lru.cycle();

    assert_eq!(lru.lru_cache_table[LRU_CACHE_SIZE - 1], 0);
    assert_eq!(lru.lru_clear_pointer, 0);
}

#[test]
fn marks_go_to_the_slot_that_the_id_names() {
    let mut lru = LruState::new();
    assert!(lru.mark_recently_accessed("abcd0000af"));
    assert_eq!(lru.lru_cache_table[10], 0x8000);
    // Digits that are none count as zero.
    assert!(lru.mark_recently_accessed("abcdzzzzz1"));
    assert_eq!(lru.lru_cache_table[0], 2);
}

#[test]
fn prune_frequency_matches_java_free_space_bands() {
    let want_free = 100;

    assert_eq!(prune_frequency(2000, 899, want_free), 600);
    assert_eq!(prune_frequency(2000, 1899, want_free), 60);
    assert_eq!(prune_frequency(2000, 1900, want_free), 10);
}

#[test]
fn save_then_try_load_roundtrips_without_deleting_info_file() {
    let mut ages = RangeAges::new();
    ages.insert("abcd", 1234);
    let state = PersistentCacheState {
        cache_count: 7,
        cache_size: 99,
        lru_clear_pointer: 17,
        static_range_ages: ages,
        lru_cache_table: vec![1u16, 2, 3],
    };

    let (info, ages, lru) = files_of(save(&state));
    let loaded = try_load(Some(&info), Some(&ages), Some(&lru)).unwrap();

    assert_eq!(loaded.cache_count, state.cache_count);
    assert_eq!(loaded.cache_size, state.cache_size);
    assert_eq!(loaded.lru_clear_pointer, state.lru_clear_pointer);
    assert_eq!(loaded.static_range_ages.get("abcd"), Some(1234));
    assert_eq!(loaded.lru_cache_table, state.lru_cache_table);
    assert!(!info.is_empty());
}

#[test]
fn clear_removes_every_persistent_cache_file() {
    assert_eq!(artifacts(), vec!["pcache_info", "pcache_ages", "pcache_lru"]);
}

#[test]
fn save_marks_new_snapshots_as_format_v1() {
    let (info, _, _) = files_of(save(&PersistentCacheState::default()));

    assert!(info.contains("formatVersion=1"));
}

#[test]
fn unversioned_rust_snapshot_remains_format_v1() {
    let (info, ages, lru) = files_of(save(&PersistentCacheState::default()));
    let info = info
        .lines()
        .filter(|line| !line.starts_with("formatVersion="))
        .collect::<Vec<_>>()
        .join("\n");

    assert!(try_load(Some(&info), Some(&ages), Some(&lru)).is_some());
}

#[test]
fn unknown_persistent_format_is_rejected() {
    let (info, ages, lru) = files_of(save(&PersistentCacheState::default()));
    let info = info.replace("formatVersion=1", "formatVersion=2");

    assert!(try_load(Some(&info), Some(&ages), Some(&lru)).is_none());
}

#[test]
fn damaged_or_missing_files_are_rejected() {
    let (info, ages, lru) = files_of(save(&PersistentCacheState::default()));
    let mut damaged = lru.clone();
    damaged[20] ^= 1;
    assert!(try_load(Some(&info), Some(&ages), Some(&damaged)).is_none());
    assert!(try_load(None, Some(&ages), Some(&lru)).is_none());
    assert!(try_load(Some(&info), None, Some(&lru)).is_none());
    assert!(try_load(Some(&info), Some(&ages), None).is_none());
    assert!(try_load(Some("cacheCount=x"), Some(&ages), Some(&lru)).is_none());
    let lines: Vec<&str> = info.lines().collect();
    assert_eq!(lines.len(), 6);
    for k in 0..6 {
        let mut kept = lines.clone();
        let gone = kept.remove(k);
        let loaded = try_load(Some(&kept.join("\n")), Some(&ages), Some(&lru));
        assert_eq!(loaded.is_some(), gone == "formatVersion=1");
    }
}

#[test]
fn the_binary_files_have_a_fixed_form() {
    let mut ages = RangeAges::new();
    ages.insert("ab", 258);
    let state = PersistentCacheState {
        cache_count: 1,
        cache_size: 2,
        lru_clear_pointer: 3,
        static_range_ages: ages,
        lru_cache_table: vec![513],
    };
    let (_, ages, lru) = files_of(save(&state));
    assert_eq!(
        ages,
        vec![
            1, 0, 0, 0, 0, 0, 0, 0, 2, 0, 0, 0, 0, 0, 0, 0, b'a', b'b', 2, 1, 0, 0, 0, 0, 0, 0
        ]
    );
    assert_eq!(lru, vec![1, 0, 0, 0, 0, 0, 0, 0, 1, 2]);
}

#[test]
fn cleanup_moves_valid_l1_orphan_to_l2_cache_dir() {
    let config = config_with_static_range();
    let entries = vec![
        FoundEntry { name: VALID_FILEID.to_string(), is_dir: false },
        FoundEntry { name: "bb".to_string(), is_dir: true },
        FoundEntry { name: "junk".to_string(), is_dir: false },
        FoundEntry { name: UNASSIGNED_FILEID.to_string(), is_dir: false },
    ];

    let steps = cleanup_entry(true, &entries, &config);

    let hv = HVFile::from_fileid(VALID_FILEID).unwrap();
    assert_eq!(steps.len(), 3);
    assert!(matches!(&steps[0], CleanupStep::Move { name, target }
        if name == VALID_FILEID && *target == hv.cache_path(&config.cache_dir)));
    assert!(matches!(&steps[1], CleanupStep::RemoveFile(n) if n == "junk"));
    assert!(matches!(&steps[2], CleanupStep::RemoveFile(n) if n == UNASSIGNED_FILEID));
    assert_eq!(hv.cache_path("cache"), format!("cache/aa/bb/{}", VALID_FILEID));
    assert!(matches!(cleanup_entry(false, &vec![], &config)[0], CleanupStep::RemoveEntry));
    assert!(matches!(cleanup_entry(true, &vec![], &config)[0], CleanupStep::RemoveDir));
}

fn found(name: &str, size: u64, modified: u64) -> FoundFile {
    FoundFile { name: name.to_string(), is_file: true, size, modified, digest: None }
}

#[test]
fn full_rescan_counts_valid_static_range_files_and_removes_invalid_entries() {
    let config = config_with_static_range();
    let mut state = StartupCacheState::new();
    let now = 1_700_000_000_000;
    let files = vec![
        found(VALID_FILEID, 4, now),
        found(WRONG_SIZE_FILEID, 4, now),
        found("not-a-fileid", 4, now),
    ];

    let scan = state.scan_range("aa", "bb", &files, false, &config, recent_cutoff(now));
    let other = state.scan_range(
        "cc",
        "dd",
        &vec![found(UNASSIGNED_FILEID, 4, now)],
        false,
        &config,
        recent_cutoff(now),
    );

    assert_eq!(state.cache_count, 1);
    assert_eq!(state.cache_size, 4);
    assert_eq!(state.static_range_oldest.get("aabb"), Some(now));
    assert_eq!(state.static_range_oldest.get("ccdd"), None);
    assert!(!state.lru.mark_recently_accessed(VALID_FILEID));
    assert_eq!(scan.remove, vec![WRONG_SIZE_FILEID, "not-a-fileid"]);
    assert!(!scan.remove_dir);
    assert_eq!(other.remove, vec![UNASSIGNED_FILEID]);
    assert!(other.remove_dir);
}

#[test]
fn rescan_verifies_digests_where_asked_and_marks_only_recent_files() {
    let config = config_with_static_range();
    let now = 1_700_000_000_000;
    assert!(needs_digest(VALID_FILEID, true, 4, true));
    assert!(!needs_digest(VALID_FILEID, true, 5, true));
    assert!(!needs_digest(VALID_FILEID, true, 4, false));
    assert!(!needs_digest("junk", true, 4, true));

    let mut good = found(VALID_FILEID, 4, now - 604_800_001);
    good.digest = Some("aabbccddeeff00112233445566778899aabbccdd".to_string());
    let mut state = StartupCacheState::new();
    let scan = state.scan_range("aa", "bb", &vec![good], true, &config, recent_cutoff(now));
    assert_eq!(scan.remove.len(), 0);
    assert_eq!(state.cache_count, 1);
    assert!(state.lru.mark_recently_accessed(VALID_FILEID));

    let mut state = StartupCacheState::new();
    let bad = found(VALID_FILEID, 4, now);
    let scan = state.scan_range("aa", "bb", &vec![bad], true, &config, recent_cutoff(now));
    assert_eq!(scan.remove, vec![VALID_FILEID]);
    assert_eq!(state.cache_count, 0);
}

#[test]
fn leftovers_of_earlier_runs_are_known_by_their_names() {
    assert!(is_orphaned_temp_file("proxyfile_x"));
    assert!(!is_orphaned_temp_file("log_out"));
    assert!(!is_orphaned_temp_file("pcache_info"));
    assert!(!is_orphaned_temp_file("client_login"));
}

fn handler_with(count: u32, size: u64, ages: &[(&str, u64)]) -> (CacheHandler, Config, Stats) {
    let mut config = test_config();
    config.disklimit_bytes = 1_000_000_000;
    let mut state = StartupCacheState::new();
    state.cache_count = count;
    state.cache_size = size;
    for (range, age) in ages {
        state.static_range_oldest.insert(range, *age);
    }
    let mut stats = Stats::new();
    let handler = CacheHandler::new(state, &config, &mut stats, None, 0).unwrap();
    (handler, config, stats)
}

#[test]
fn startup_checks_refuse_a_full_disk_and_a_lost_cache() {
    let mut config = test_config();
    config.disklimit_bytes = 1000;
    let mut stats = Stats::new();
    let full = CacheHandler::new(StartupCacheState::new(), &config, &mut stats, Some(999), 0);
    assert_eq!(full.unwrap_err().to_text(), "insufficient disk space for cache");
    config.skip_free_space_check = true;
    assert!(CacheHandler::new(StartupCacheState::new(), &config, &mut stats, Some(999), 0).is_ok());
    config.static_range_count = 21;
    let lost = CacheHandler::new(StartupCacheState::new(), &config, &mut stats, None, 0);
    assert_eq!(lost.unwrap_err().to_text(), "empty cache with static ranges assigned");
    assert_eq!(
        check_cache_root(true, false).unwrap_err().to_text(),
        "cannot read cache directory"
    );
    assert!(check_cache_root(false, false).is_ok());
}

#[test]
fn a_saved_state_restores_the_handler() {
    let (mut handler, config, mut stats) = handler_with(0, 0, &[]);
    let hv = HVFile::from_fileid(VALID_FILEID).unwrap();
    handler.register_proxy_file(&hv, &config, &mut stats, 1000);
    let (info, ages, lru) = files_of(handler.save_persistent_data().unwrap());
    let mut state = from_persistent(try_load(Some(&info), Some(&ages), Some(&lru)).unwrap());
    assert_eq!(state.cache_count, 1);
    assert_eq!(state.cache_size, 4);
    assert_eq!(state.static_range_oldest.get("aabb"), Some(1000));
    assert!(!state.lru.mark_recently_accessed(VALID_FILEID));
}

#[test]
fn adding_and_deleting_a_file_moves_the_counters() {
    let (mut handler, mut config, mut stats) = handler_with(2, 10, &[]);
    config.filesystem_blocksize = 4096;
    let hv = HVFile::from_fileid(VALID_FILEID).unwrap();
    handler.register_proxy_file(&hv, &config, &mut stats, 77);
    assert_eq!(handler.cache_count, 3);
    assert_eq!(handler.cache_size, 14);
    assert_eq!(stats.cache_count, 3);
    assert_eq!(stats.cache_size, 14 + 3 * 4096 / 2);
    assert_eq!(handler.static_range_oldest.get("aabb"), Some(77));
    // The age of a range that has one stays.
    handler.register_proxy_file(&hv, &config, &mut stats, 99);
    assert_eq!(handler.static_range_oldest.get("aabb"), Some(77));
    let (found, path) = CacheHandler::delete_file_from_cache(VALID_FILEID, &config).unwrap();
    assert_eq!(path, hv.cache_path(&config.cache_dir));
    handler.file_deleted(&found, &config, &mut stats);
    assert_eq!(handler.cache_count, 3);
    assert_eq!(handler.cache_size, 14);
    assert!(CacheHandler::delete_file_from_cache("junk", &config).is_none());
}

#[test]
fn verification_has_a_cooldown_of_two_seconds() {
    let (mut handler, _, _) = handler_with(0, 0, &[]);
    assert!(handler.is_file_verification_on_cooldown(1_999_999_999));
    assert!(!handler.is_file_verification_on_cooldown(2_000_000_000));
    assert!(handler.is_file_verification_on_cooldown(3_000_000_000));
    assert!(CacheHandler::needs_new_date(true, false, 0, 604_800_000_000_001));
    assert!(!CacheHandler::needs_new_date(true, false, 0, 604_800_000_000_000));
    assert!(!CacheHandler::needs_new_date(true, true, 0, 604_800_000_000_001));
    assert!(!CacheHandler::needs_new_date(false, false, 0, 604_800_000_000_001));
}

#[test]
fn pruning_takes_the_oldest_range_and_keeps_space_free() {
    let now = 20_000_000_000_000;
    let (handler, config, _) = handler_with(5, 1_100_000_000, &[("aabb", now - 1), ("ccdd", 7)]);
    assert!(handler.ranges_are_sound());
    match handler.check_prune_action(&config, now) {
        PruneAction::Prune(plan) => {
            assert_eq!(plan.static_range, "ccdd");
            assert_eq!(plan.range_dir, "cache/cc/dd");
            assert_eq!(plan.cutoff, 7 + THIRTY_DAYS);
            assert!(plan.fast_delete);
            assert_eq!(deletion_pause(&plan), 100);
        }
        PruneAction::NoPrune { .. } => panic!("the cache is full"),
    }
    // Near the limit, files are deleted without haste.
    let (handler, config, _) = handler_with(5, 950_000_000, &[("aabb", now - 100 * ONE_DAY)]);
    match handler.check_prune_action(&config, now) {
        PruneAction::Prune(plan) => {
            assert_eq!(plan.cutoff, now - 100 * ONE_DAY + SEVEN_DAYS);
            assert!(!plan.fast_delete);
            assert_eq!(deletion_pause(&plan), 1000);
        }
        PruneAction::NoPrune { .. } => panic!("too little is free"),
    }
    let (handler, config, _) = handler_with(5, 950_000_000, &[("aabb", now - 40 * ONE_DAY)]);
    assert!(matches!(handler.check_prune_action(&config, now),
        PruneAction::Prune(p) if p.cutoff == now - 40 * ONE_DAY + THREE_DAYS));
    let (handler, config, _) = handler_with(5, 950_000_000, &[("aabb", now)]);
    assert!(matches!(handler.check_prune_action(&config, now),
        PruneAction::Prune(p) if p.cutoff == now + ONE_DAY));
    let (handler, config, _) = handler_with(5, 1000, &[("aabb", now)]);
    assert!(matches!(
        handler.check_prune_action(&config, now),
        PruneAction::NoPrune { frequency: 60 }
    ));
    let (handler, config, _) = handler_with(5, 1000, &[("ab", now)]);
    assert!(!handler.ranges_are_sound());
    assert!(handler.can_be_checked(&config));
}

#[test]
fn only_the_name_of_the_oldest_range_has_to_be_cut() {
    let now = 20_000_000_000_000;
    let (handler, config, _) = handler_with(5, 1_100_000_000, &[("x", now), ("ccdd", 7)]);
    assert!(handler.ranges_are_sound());
    assert!(handler.can_be_checked(&config));
    assert!(CachePruner::new().can_tick(&handler, &config));
    let (handler, config, _) = handler_with(5, 1_100_000_000, &[("x", 7), ("ccdd", now)]);
    assert!(!handler.can_be_checked(&config));
    assert!(!CachePruner::new().can_tick(&handler, &config));
    // Two bytes are one letter here, and the name is cut behind it.
    let (handler, config, _) = handler_with(5, 1_100_000_000, &[("\u{e9}ab.", 7)]);
    assert!(matches!(handler.check_prune_action(&config, now),
        PruneAction::Prune(p) if p.range_dir == "cache/\u{e9}/ab"));
    let (handler, config, _) = handler_with(5, 1_100_000_000, &[("a\u{e9}b.", 7)]);
    assert!(!handler.can_be_checked(&config));
}

#[test]
fn prune_results_update_ages_and_counters() {
    let (mut handler, config, mut stats) = handler_with(10, 1000, &[("aabb", 5)]);
    let mut result = PruneResult {
        static_range: "aabb".to_string(),
        range_dir: "cache/aa/bb".to_string(),
        file_count: 3,
        oldest_last_modified: 50,
        files_deleted: 2,
        bytes_deleted: 100,
    };
    assert!(!handler.apply_prune_result(&result, &config, &mut stats));
    assert_eq!(handler.static_range_oldest.get("aabb"), Some(50));
    assert_eq!(handler.cache_count, 8);
    assert_eq!(handler.cache_size, 900);
    result.file_count = 0;
    assert!(handler.apply_prune_result(&result, &config, &mut stats));
    assert_eq!(handler.static_range_oldest.get("aabb"), None);
}

#[test]
fn the_pruner_checks_on_time_and_again_after_pruning() {
    let now = 20_000_000_000_000;
    let (handler, config, _) = handler_with(5, 1000, &[("aabb", now)]);
    let mut pruner = CachePruner::new();
    for _ in 0..60 {
        let action = pruner.tick(&handler, &config, now);
        assert!(matches!(action, PruneAction::NoPrune { frequency: 60 }));
    }
    assert_eq!(pruner.cache_check_ticks, 60);
    let action = pruner.tick(&handler, &config, now);
    assert_eq!(pruner.cache_check_ticks, 0);
    pruner.action_taken(&action);
    assert_eq!(pruner.check_frequency, 60);
    let (full, config, _) = handler_with(5, 1_100_000_000, &[("aabb", now)]);
    let action = pruner.tick(&full, &config, now);
    assert!(matches!(action, PruneAction::Prune(_)));
    pruner.action_taken(&action);
    assert_eq!(pruner.check_frequency, 0);
    for _ in 0..299 {
        assert!(!pruner.disk_tick());
    }
    assert!(pruner.disk_tick());
    assert!(!pruner.disk_tick());
}

#[test]
fn the_disk_is_low_below_the_larger_of_two_bounds() {
    let mut config = test_config();
    assert!(disk_is_low(&config, Some(WANT_FREE - 1)));
    assert!(!disk_is_low(&config, Some(WANT_FREE)));
    config.diskremaining_bytes = WANT_FREE + 10;
    assert!(disk_is_low(&config, Some(WANT_FREE + 9)));
    assert!(!disk_is_low(&config, None));
    config.skip_free_space_check = true;
    assert!(!disk_is_low(&config, Some(0)));
}

#[test]
fn a_prune_pass_counts_what_it_deletes() {
    let plan = match {
        let (handler, config, _) = handler_with(5, 1_100_000_000, &[("aabb", 7)]);
        handler.check_prune_action(&config, 8)
    } {
        PruneAction::Prune(plan) => plan,
        PruneAction::NoPrune { .. } => panic!("the cache is full"),
    };
    let mut pass = PrunePass::new();
    assert_eq!(pass.see_file(VALID_FILEID, 10, 20), PruneStep::Delete(Some(4)));
    pass.file_deleted(Some(4));
    assert_eq!(pass.see_file("junk", 12, 20), PruneStep::Delete(None));
    pass.file_deleted(None);
    assert_eq!(pass.see_file(UNASSIGNED_FILEID, 20, 20), PruneStep::Keep);
    assert_eq!(pass.see_file(WRONG_SIZE_FILEID, 15, 20), PruneStep::Delete(Some(5)));
    pass.file_remains(15);
    let result = pass.finish(&plan, 99);
    assert_eq!(result.file_count, 2);
    assert_eq!(result.files_deleted, 1);
    assert_eq!(result.bytes_deleted, 4);
    assert_eq!(result.oldest_last_modified, 15);
    assert_eq!(PrunePass::new().finish(&plan, 99).oldest_last_modified, 99);
}

#[test]
fn hashes_of_saved_files_decide() {
    let (info, ages, lru) = files_of(save(&PersistentCacheState::default()));
    let ages_sum = sha1_bytes(&ages);
    let lru_sum = sha1_bytes(&lru);
    assert!(load_checked(&info, &ages, &lru, &ages_sum, &lru_sum).is_some());
    assert!(load_checked(&info, &ages, &lru, &lru_sum, &lru_sum).is_none());
    assert!(load_checked(&info, &ages, &lru, &ages_sum, "").is_none());
    assert!(load_checked(&info, &ages, &[1], &ages_sum, &lru_sum).is_none());
}
