//! Caches of another client, read from a stream and written as files.

use hath_rs::cache::ages::RangeAges;
use hath_rs::cache::persistent::try_load;
use hath_rs::migrate::import_from_reader;
use hath_rs::migrate::protocol::{
    digested_part, encode_hpcache_v1_for_test, read, read_checked, LegacyCacheState, ProtocolError, LRU_CACHE_SIZE,
};
use hath_rs::migrate::test_support::encode_hpcache_v1;
use hath_rs::migrate::transaction::{
    check_target, publish, publish_checked, publish_with_writer, staged_path, unique_backup_dir,
    Existing, ImportError, PublishNames, PublishStep,
};
use hath_rs::migrate::writer::{encode, sha1_hex, EncodedSnapshot};

fn full_state() -> LegacyCacheState {
    let mut lru_cache_table = vec![0u16; LRU_CACHE_SIZE];
    lru_cache_table[123] = 0x8000;
    lru_cache_table[456] = 0xffff;
    let mut ages = RangeAges::new();
    ages.insert("a3f0", 1_700_000_000_000);
    LegacyCacheState {
        cache_count: 7,
        cache_size: 99,
        lru_clear_pointer: 17,
        static_range_ages: ages,
        lru_cache_table,
    }
}

fn names() -> PublishNames {
    PublishNames {
        backup_dir: "/d/backup".to_string(),
        staged_ages: "/d/.ages".to_string(),
        staged_lru: "/d/.lru".to_string(),
        staged_info: "/d/.info".to_string(),
    }
}

fn nothing_there() -> Existing {
    Existing { info: false, ages: false, lru: false }
}

/// What lies under the target's names after the steps are done.
fn published(steps: &[PublishStep], encoded: &EncodedSnapshot, kept: usize) -> Vec<(String, Vec<u8>)> {
    let mut files: Vec<(String, Vec<u8>)> = Vec::new();
    for step in &steps[..kept] {
        match step {
            PublishStep::CreateDir(_) => {}
            PublishStep::WriteAges(p) => files.push((p.clone(), encoded.ages.clone())),
            PublishStep::WriteLru(p) => files.push((p.clone(), encoded.lru.clone())),
            PublishStep::WriteInfo(p) => files.push((p.clone(), encoded.info.clone())),
            PublishStep::Rename { from, to } => {
                for f in &mut files {
                    if f.0 == *from {
                        f.0 = to.clone();
                    }
                }
            }
        }
    }
    files
}

#[test]
fn valid_stream_is_accepted() {
    assert!(read(encode_hpcache_v1_for_test(&full_state()).as_slice()).is_ok());
}

#[test]
fn existing_files_require_replace() {
    let encoded = encode(&full_state()).unwrap();
    let there = Existing { info: true, ages: false, lru: false };

    let error = match publish("/d", there, false, &encoded, &names()) {
        Err(error) => error,
        Ok(_) => panic!("migration unexpectedly succeeded"),
    };

    assert!(error.to_text().contains("--replace"));
}

#[test]
fn staged_write_failure_does_not_publish_info() {
    let failure = Err(ImportError::Write("injected failure".into()));
    let error = match publish_with_writer("/d", nothing_there(), false, failure, &names()) {
        Err(error) => error,
        Ok(_) => panic!("migration unexpectedly succeeded"),
    };
    assert!(error.to_text().contains("injected failure"));
    let encoded = encode(&full_state()).unwrap();
    let outcome = publish("/d", nothing_there(), false, &encoded, &names()).unwrap();
    // Wherever the steps break off, the information is published last.
    for kept in 0..outcome.steps.len() {
        let files = published(&outcome.steps, &encoded, kept);
        assert!(!files.iter().any(|f| f.0 == "/d/pcache_info"));
    }
}

#[test]
fn old_files_in_the_way_come_before_a_failed_writer() {
    let there = Existing { info: false, ages: true, lru: false };
    let failure = || Err(ImportError::Write("injected failure".into()));
    assert!(matches!(
        publish_with_writer("/d", there, false, failure(), &names()),
        Err(ImportError::ReplaceRequired)
    ));
    let there = Existing { info: false, ages: true, lru: false };
    assert!(matches!(
        publish_with_writer("/d", there, true, failure(), &names()),
        Err(ImportError::Write(_))
    ));
}

#[test]
fn streams_that_are_cut_lengthened_or_altered_are_refused() {
    let stream = encode_hpcache_v1_for_test(&full_state());
    assert_eq!(stream.len(), 66 + 14 + 2 * LRU_CACHE_SIZE);
    for n in [0, 7, 8, 9, 25, 29, 31, 35, 43, 47, 1000, stream.len() - 32, stream.len() - 1] {
        assert!(matches!(read(&stream[..n]), Err(ProtocolError::Io)));
    }
    let mut longer = stream.clone();
    longer.push(0);
    assert!(matches!(read(&longer), Err(ProtocolError::TrailingData)));
    for back in [1, 32] {
        let mut altered = stream.clone();
        let at = altered.len() - back;
        altered[at] ^= 1;
        assert!(matches!(read(&altered), Err(ProtocolError::DigestMismatch)));
    }
}

#[test]
fn replace_backs_up_all_old_artifacts_before_publish() {
    let encoded = encode(&full_state()).unwrap();
    let there = Existing { info: true, ages: true, lru: true };

    let outcome = publish("/d", there, true, &encoded, &names()).unwrap();
    let backup_dir = outcome.backup_dir.unwrap();
    for name in ["pcache_info", "pcache_ages", "pcache_lru"] {
        let to = format!("{}/{}", backup_dir, name);
        let from = format!("/d/{}", name);
        let moved = outcome.steps.iter().position(
            |s| matches!(s, PublishStep::Rename { from: f, to: t } if *f == from && *t == to),
        );
        let written = outcome
            .steps
            .iter()
            .position(|s| matches!(s, PublishStep::Rename { to: t, .. } if *t == from));
        assert!(moved.unwrap() < written.unwrap());
    }
    let files = published(&outcome.steps, &encoded, outcome.steps.len());
    assert!(files.contains(&("/d/pcache_info".to_string(), encoded.info.clone())));
    assert!(files.contains(&("/d/pcache_ages".to_string(), encoded.ages.clone())));
    assert!(files.contains(&("/d/pcache_lru".to_string(), encoded.lru.clone())));
}

#[test]
fn java_importer_output_loads_through_client_persistence_path() {
    let source = full_state();

    let encoded = import_from_reader(&encode_hpcache_v1(&source)).unwrap();

    let info = String::from_utf8(encoded.info).unwrap();
    let loaded = try_load(Some(&info), Some(&encoded.ages), Some(&encoded.lru)).unwrap();
    assert_eq!(loaded.cache_count, 7);
    assert_eq!(loaded.cache_size, 99);
    assert_eq!(loaded.lru_clear_pointer, 17);
    assert_eq!(loaded.static_range_ages.get("a3f0"), Some(1_700_000_000_000));
    assert_eq!(loaded.lru_cache_table[123], 0x8000);
    assert_eq!(loaded.lru_cache_table[456], 0xffff);
}

#[test]
fn streams_round_trip() {
    let stream = encode_hpcache_v1(&full_state());
    let state = read(&stream).unwrap();
    assert_eq!(encode_hpcache_v1(&state), stream);
    assert_eq!(state.cache_size, 99);
}

fn failure(stream: &[u8]) -> ProtocolError {
    match read(stream) {
        Err(e) => e,
        Ok(_) => panic!("the stream is damaged"),
    }
}

#[test]
fn damaged_streams_are_refused() {
    let stream = encode_hpcache_v1(&full_state());
    let mut s = stream.clone();
    s[0] ^= 1;
    assert!(matches!(failure(&s), ProtocolError::Magic));
    let n = stream.len();
    let mut s = stream.clone();
    s[n - 1] ^= 1;
    assert!(matches!(failure(&s), ProtocolError::DigestMismatch));
    let mut s = stream.clone();
    s.push(0);
    assert!(matches!(failure(&s), ProtocolError::TrailingData));
    assert!(matches!(failure(&stream[..n - 1]), ProtocolError::Io));
    assert!(matches!(failure(&[]), ProtocolError::Io));
    let mut bad = full_state();
    bad.lru_clear_pointer = LRU_CACHE_SIZE + 1;
    let e = failure(&encode_hpcache_v1(&bad));
    assert!(matches!(&e, ProtocolError::InvalidValue { .. }));
    assert!(e.to_text().contains("1048577"));
    let mut bad = full_state();
    bad.static_range_ages.insert("A3F0", 1);
    let e = failure(&encode_hpcache_v1(&bad));
    assert!(matches!(&e, ProtocolError::InvalidRange(_)));
    assert!(e.to_text().contains("A3F0"));
}

#[test]
fn targets_are_directories() {
    assert!(check_target("/d", true, true).is_ok());
    assert!(check_target("/d", true, false).is_err());
}

#[test]
fn names_for_files_in_the_making_are_unique() {
    let a = unique_backup_dir("/d", 5, 6, 7);
    assert!(a.starts_with("/d/"));
    assert_ne!(a, unique_backup_dir("/d", 5, 6, 8));
    let s = staged_path("/d", "pcache_info", 6, 7);
    assert!(s.contains("pcache_info"));
    assert_ne!(s, staged_path("/d", "pcache_info", 6, 8));
    assert_eq!(sha1_hex(b""), "da39a3ee5e6b4b0d3255bfef95601890afd80709");
}

#[test]
fn the_digest_of_a_stream_decides() {
    let stream = encode_hpcache_v1(&full_state());
    let n = stream.len();
    assert_eq!(digested_part(&stream).unwrap(), &stream[..n - 32]);
    assert!(digested_part(&stream[..29]).is_none());
    assert!(digested_part(&stream[..n - 33]).is_none());
    assert!(read_checked(&stream, &stream[n - 32..]).is_ok());
    assert!(matches!(read_checked(&stream, &[0; 32]), Err(ProtocolError::DigestMismatch)));
    let mut other = stream.clone();
    other[n - 1] ^= 1;
    let digest = other[n - 32..].to_vec();
    assert!(read_checked(&other, &digest).is_ok());
}

#[test]
fn files_with_other_hashes_are_not_published() {
    let encoded = encode(&full_state()).unwrap();
    let ages = encoded.ages_hash.as_str();
    let lru = encoded.lru_hash.as_str();
    let at = |ages: &str, lru: &str| {
        publish_checked("/d", nothing_there(), false, &encoded, ages, lru, &names())
    };
    assert_eq!(at(ages, lru).unwrap().steps.len(), 6);
    assert!(matches!(
        at(lru, ages),
        Err(ImportError::Write(m)) if m == "staged cache hash did not match generated info"
    ));
}
