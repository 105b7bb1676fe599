//! How much the cache may hold, and what leaves it.

use vstd::prelude::*;
use crate::cache::handler::CacheHandler;
use crate::cache::prune::PruneAction;
use crate::cache::pruner::PrunePass;
use crate::config::ConfigView;

verus! {

/// The files of a cache use their bytes and half a block each.
pub proof fn files_waste_half_a_block(actual: u64, count: u32, blocksize: u64)
    requires
        blocksize <= 65_536,
        actual + count * blocksize / 2 <= u64::MAX,
    ensures
        crate::cache::handler::size_with_overhead(actual, count, blocksize) == actual + count * blocksize
            / 2,
{
    assert(0 <= count * blocksize <= 0xffff_ffff * 65_536) by (nonlinear_arith)
        requires
            0 <= count <= 0xffff_ffff,
            0 <= blocksize <= 65_536,
    ;
}

/// A cache lacks space where the free space of the disk is known and asked for, and does not reach
/// up to the limit; a cache that is at its limit lacks none.
pub proof fn space_is_lacking_below_the_limit(c: ConfigView, count: u32, size: u64, free: u64)
    ensures
        ({
            let used = crate::cache::handler::size_with_overhead(size, count, c.filesystem_blocksize);
            &&& crate::cache::handler::lacks_space(c, count, size, Some(free)) <==> !c.skip_free_space_check
                && used + free < c.disklimit_bytes
            &&& !crate::cache::handler::lacks_space(c, count, size, None)
        }),
{
}

/// A cache without files has lost them where more than twenty ranges are assigned to it.
pub proof fn files_are_lost_with_ranges(c: ConfigView, count: u32)
    ensures
        crate::cache::handler::lost_its_files(c, count) <==> count == 0 && c.static_range_count >= 21,
{
}

/// Freeing as much as is asked for leaves a hundred mebibytes below the limit; nothing is asked for
/// where they are free.
pub proof fn a_hundred_mebibytes_stay_free(h: CacheHandler, c: ConfigView)
    requires
        h.used(c) <= 0x7fff_ffff_ffff_ffff,
        h.can_prune(),
    ensures
        h.used(c) + 104_857_600 > c.disklimit_bytes ==> h.used(c) - h.to_free(c) + 104_857_600
            == c.disklimit_bytes,
        h.used(c) + 104_857_600 <= c.disklimit_bytes ==> h.to_free(c) == 0,
        h.must_prune(c) <==> h.used(c) + 104_857_600 > c.disklimit_bytes,
{
}

/// A cache that has to be pruned while it is below its limit is pruned without haste.
pub proof fn pruning_below_the_limit_takes_its_time(h: CacheHandler, c: ConfigView, now: u64, a: PruneAction)
    requires
        h.can_prune(),
        h.used(c) <= c.disklimit_bytes < h.used(c) + 104_857_600,
        h.is_prune_action(c, now, a),
    ensures
        a is Prune,
        !a->Prune_0.fast_delete,
        h.static_range_oldest@.contains_key(a->Prune_0.static_range@),
        forall|k: Seq<char>| #[trigger]
            h.static_range_oldest@.contains_key(k)
                ==> h.static_range_oldest@[a->Prune_0.static_range@] <= h.static_range_oldest@[k],
{
}

/// A range is pruned of what is at most thirty days younger than its oldest file where that is
/// more than 180 days old, of a week where it is more than 90, of three days where it is more
/// than 30, and else of one day; times are in milliseconds.
pub proof fn older_ranges_lose_more(age: u64, now: u64)
    requires
        age + 2_592_000_000 <= u64::MAX,
    ensures
        ({
            let day: int = 86_400_000;
            let cutoff = crate::cache::handler::cutoff_for(age, now);
            &&& now - age > 180 * day ==> cutoff == age + 30 * day
            &&& 90 * day < now - age <= 180 * day ==> cutoff == age + 7 * day
            &&& 30 * day < now - age <= 90 * day ==> cutoff == age + 3 * day
            &&& now - age <= 30 * day ==> cutoff == age + day
            &&& cutoff > age
        }),
{
}

/// The cache is checked every ten minutes where more than a thousand mebibytes are free below the
/// limit, every minute where more than a hundred are, and else every ten seconds.
pub proof fn checks_have_three_intervals(limit: u64, size: u64)
    ensures
        ({
            let f = crate::cache::prune::frequency_for(
                crate::cache::prune::free_space(limit, size),
                104_857_600,
            );
            &&& limit - size > 1_048_576_000 ==> f == 600
            &&& 104_857_600 < limit - size <= 1_048_576_000 ==> f == 60
            &&& limit - size <= 104_857_600 ==> f == 10
        }),
{
}

/// Behind a prune pass, as many files remain as are not from before the cutoff; the noted time is
/// at most that of each of them and, where there is any, that of one of them.
pub proof fn remaining_files_are_noted(files: Seq<u64>, cutoff: u64)
    requires
        files.len() <= usize::MAX,
    ensures
        ({
            let p = crate::cache::pruner::remaining_of(files, cutoff);
            &&& p.file_count == files.filter(|t: u64| t >= cutoff).len()
            &&& forall|i: int|
                0 <= i < files.len() && (#[trigger] files[i]) >= cutoff ==> p.oldest_last_modified <= files[i]
            &&& p.file_count > 0 ==> exists|i: int|
                0 <= i < files.len() && (#[trigger] files[i]) >= cutoff && p.oldest_last_modified == files[i]
            &&& p.file_count == 0 ==> p.oldest_last_modified == u64::MAX
            &&& p.files_deleted == 0
        }),
    decreases files.len(),
{
    reveal(Seq::filter);
    let p = crate::cache::pruner::remaining_of(files, cutoff);
    if files.len() > 0 {
        let less = files.drop_last();
        let b = crate::cache::pruner::remaining_of(less, cutoff);
        remaining_files_are_noted(less, cutoff);
        less.lemma_filter_len(|t: u64| t >= cutoff);
        let last = files.len() - 1;
        assert(files[last] == files.last());
        if b.file_count > 0 {
            let i = choose|i: int|
                0 <= i < less.len() && (#[trigger] less[i]) >= cutoff && b.oldest_last_modified == less[i];
            assert(files[i] == less[i]);
        }
        assert forall|i: int| 0 <= i < files.len() && (#[trigger] files[i]) >= cutoff implies p.oldest_last_modified
            <= files[i] by {
            if i < last {
                assert(less[i] == files[i]);
            }
        }
    }
}

/// A file that remains makes the noted time the lesser of its own and the one before, and is
/// counted.
pub proof fn each_remaining_file_is_noted(p: PrunePass, t: u64)
    requires
        p.file_count < usize::MAX,
    ensures
        ({
            let q = p.with_remaining(t);
            &&& q.file_count == p.file_count + 1
            &&& q.oldest_last_modified <= t
            &&& q.oldest_last_modified <= p.oldest_last_modified
            &&& q.oldest_last_modified == t || q.oldest_last_modified == p.oldest_last_modified
            &&& q.files_deleted == p.files_deleted
            &&& q.bytes_deleted == p.bytes_deleted
        }),
{
}

/// The value of a hexadecimal digit in small letters.
pub open spec fn digit_of(c: char) -> int {
    if '0' <= c <= '9' {
        c as int - 48
    } else {
        c as int - 87
    }
}

proof fn lemma_byte_digit(c: char)
    requires
        crate::types::is_lower_hex(c),
    ensures
        0 <= digit_of(c) < 16,
        crate::number::hex_digit(c as u8) == Some(digit_of(c) as nat),
{
}

/// A file is marked in the table at the place that the fifth to the ninth digit of its hash write,
/// and there in the bit that the tenth digit is the number of.
pub proof fn hashes_name_their_slots(v: crate::hvfile::HVFileView)
    requires
        crate::types::is_sha1_text(v.hash),
    ensures
        ({
            let id = vstd::utf8::encode_utf8(crate::hvfile::fileid_of(v));
            &&& crate::cache::lru::slot_index(id) == digit_of(v.hash[4]) * 65_536 + digit_of(v.hash[5]) * 4_096
                + digit_of(v.hash[6]) * 256 + digit_of(v.hash[7]) * 16 + digit_of(v.hash[8])
            &&& crate::cache::lru::slot_bit(id) == digit_of(v.hash[9])
        }),
{
    let id = vstd::utf8::encode_utf8(crate::hvfile::fileid_of(v));
    lemma_hash_bytes(v);
    let five = id.subrange(4, 9);
    let one = id.subrange(9, 10);
    assert forall|i: int| 4 <= i < 10 implies crate::number::hex_digit(id[i]) == Some(
        digit_of(#[trigger] v.hash[i]) as nat,
    ) by {
        lemma_byte_digit(v.hash[i]);
    }
    let t = |i: int| digit_of(v.hash[i]);
    assert(five[0] == id[4] && five[1] == id[5] && five[2] == id[6] && five[3] == id[7] && five[4] == id[8]);
    assert(one[0] == id[9]);
    lemma_byte_digit(v.hash[4]);
    lemma_byte_digit(v.hash[5]);
    lemma_byte_digit(v.hash[6]);
    lemma_byte_digit(v.hash[7]);
    lemma_byte_digit(v.hash[8]);
    lemma_byte_digit(v.hash[9]);
    let f4 = five.drop_last();
    let f3 = f4.drop_last();
    let f2 = f3.drop_last();
    let f1 = f2.drop_last();
    assert(f1.drop_last() =~= seq![]);
    assert(one.drop_last() =~= seq![]);
    assert(crate::number::hex_value(f1.drop_last()) == 0);
    assert(crate::number::hex_value(f1) == t(4));
    assert(crate::number::hex_value(f2) == 16 * t(4) + t(5));
    assert(crate::number::hex_value(f3) == 16 * (16 * t(4) + t(5)) + t(6));
    assert(crate::number::hex_value(f4) == 16 * (16 * (16 * t(4) + t(5)) + t(6)) + t(7));
    assert(crate::number::hex_value(one.drop_last()) == 0);
    assert(crate::number::hex_value(one) == t(9));
}

proof fn lemma_hash_bytes(v: crate::hvfile::HVFileView)
    requires
        crate::types::is_sha1_text(v.hash),
    ensures
        ({
            let id = vstd::utf8::encode_utf8(crate::hvfile::fileid_of(v));
            id.len() >= 40 && forall|i: int| 0 <= i < 40 ==> #[trigger] id[i] == v.hash[i] as u8
        }),
{
    let s = crate::hvfile::fileid_of(v);
    let rest = s.skip(40);
    assert(s.take(40) =~= v.hash);
    assert(s =~= v.hash + rest);
    crate::text::lemma_utf8_of_sum(v.hash, rest);
    assert(vstd::utf8::is_ascii_chars(v.hash)) by {
        assert forall|i: int| 0 <= i < v.hash.len() implies '\0' <= #[trigger] v.hash[i] <= '\u{7f}' by {
            assert(crate::types::is_lower_hex(v.hash[i]));
        }
    }
    vstd::utf8::is_ascii_chars_encode_utf8(v.hash);
}

/// A check is due at once where the cache uses more than its limit, and otherwise when as many ticks
/// have passed as lie between two checks.
pub proof fn full_caches_are_checked(
    p: crate::cache::pruner::CachePruner,
    cache: CacheHandler,
    c: ConfigView,
)
    ensures
        cache.used(c) > c.disklimit_bytes ==> p.is_check_due(cache, c),
        cache.used(c) <= c.disklimit_bytes ==> (p.is_check_due(cache, c) <==> p.cache_check_ticks
            >= p.check_frequency),
{
}

/// What is reported of a cache is its count and its use; every other counter stays.
pub proof fn count_and_use_are_reported(
    cache: CacheHandler,
    c: ConfigView,
    before: crate::stats::Stats,
    after: crate::stats::Stats,
)
    requires
        cache.is_reported(c, before, after),
    ensures
        after.cache_count == cache.cache_count,
        after.cache_size == cache.used(c),
        after.files_sent == before.files_sent,
        after.files_rcvd == before.files_rcvd,
        after.bytes_sent == before.bytes_sent,
        after.bytes_rcvd == before.bytes_rcvd,
        after.open_connections == before.open_connections,
        after.last_server_contact == before.last_server_contact,
        after.client_running == before.client_running,
        after.client_suspended == before.client_suspended,
        after.bytes_sent_history == before.bytes_sent_history,
{
}

/// A character of a range counts for the bytes that it is encoded in.
pub proof fn characters_count_for_their_bytes(c: char)
    ensures
        crate::cache::handler::utf8_width(c) == vstd::utf8::encode_utf8(seq![c]).len(),
{
    reveal_with_fuel(vstd::utf8::encode_utf8, 2);
    assert(seq![c].drop_first() =~= seq![]);
}

} // verus!
