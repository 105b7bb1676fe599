//! The cache state that is kept between two runs: a text with the counters and the
//! hashes of two binary files, which hold the range ages and the LRU table.

use vstd::prelude::*;
use crate::cache::ages::RangeAges;

verus! {

/// What is kept between two runs.
#[derive(Debug)]
pub struct PersistentCacheState {
    pub cache_count: u32,
    pub cache_size: u64,
    pub lru_clear_pointer: usize,
    pub static_range_ages: RangeAges,
    pub lru_cache_table: Vec<u16>,
}

/// The state as numbers, a map and a sequence.
pub ghost struct StateView {
    pub cache_count: u32,
    pub cache_size: u64,
    pub lru_clear_pointer: usize,
    pub static_range_ages: Map<Seq<char>, u64>,
    pub lru_cache_table: Seq<u16>,
}

impl View for PersistentCacheState {
    type V = StateView;

    open spec fn view(&self) -> StateView {
        StateView {
            cache_count: self.cache_count,
            cache_size: self.cache_size,
            lru_clear_pointer: self.lru_clear_pointer,
            static_range_ages: self.static_range_ages@,
            lru_cache_table: self.lru_cache_table@,
        }
    }
}

// ---------------------------------------------------------------------------
// The binary files
// ---------------------------------------------------------------------------

/// The entries of a table, two bytes each, low byte first.
pub open spec fn table_bytes(t: Seq<u16>) -> Seq<u8>
    decreases t.len(),
{
    if t.len() == 0 {
        seq![]
    } else {
        table_bytes(t.drop_last()) + vstd::bytes::spec_u16_to_le_bytes(t.last())
    }
}

/// A table as bytes: its length in eight bytes, then its entries.
pub open spec fn encoded_table(t: Seq<u16>) -> Seq<u8> {
    vstd::bytes::spec_u64_to_le_bytes(t.len() as u64) + table_bytes(t)
}

/// An entry of the age list: the length of the range, the range, the age.
pub open spec fn entry_bytes(range: Seq<char>, age: u64) -> Seq<u8> {
    vstd::bytes::spec_u64_to_le_bytes(vstd::utf8::encode_utf8(range).len() as u64)
        + vstd::utf8::encode_utf8(range) + vstd::bytes::spec_u64_to_le_bytes(age)
}

/// The entries of an age list.
pub open spec fn pair_bytes(p: Seq<(Seq<char>, u64)>) -> Seq<u8>
    decreases p.len(),
{
    if p.len() == 0 {
        seq![]
    } else {
        entry_bytes(p[0].0, p[0].1) + pair_bytes(p.drop_first())
    }
}

/// An age list as bytes: its length in eight bytes, then its entries.
pub open spec fn encoded_ages(p: Seq<(Seq<char>, u64)>) -> Seq<u8> {
    vstd::bytes::spec_u64_to_le_bytes(p.len() as u64) + pair_bytes(p)
}

/// An age list whose lengths fit in eight bytes.
pub open spec fn fits(p: Seq<(Seq<char>, u64)>) -> bool {
    &&& p.len() <= u64::MAX
    &&& forall|i: int|
        0 <= i < p.len() ==> vstd::utf8::encode_utf8((#[trigger] p[i]).0).len() <= u64::MAX
}

/// The table that bytes begin with, where they begin with one.
pub open spec fn decoded_table(data: Seq<u8>) -> Option<Seq<u16>> {
    if exists|t: Seq<u16>| t.len() <= u64::MAX && #[trigger] encoded_table(t).is_prefix_of(data) {
        Some(choose|t: Seq<u16>| t.len() <= u64::MAX && #[trigger] encoded_table(t).is_prefix_of(data))
    } else {
        None
    }
}

/// The age list that bytes begin with, where they begin with one.
pub open spec fn decoded_ages(data: Seq<u8>) -> Option<Seq<(Seq<char>, u64)>> {
    if exists|p: Seq<(Seq<char>, u64)>| fits(p) && #[trigger] encoded_ages(p).is_prefix_of(data) {
        Some(
            choose|p: Seq<(Seq<char>, u64)>| fits(p) && #[trigger] encoded_ages(p).is_prefix_of(data),
        )
    } else {
        None
    }
}

/// `bincode::serialize` of a vector of numbers: its length in eight bytes, then two
/// bytes for each, low byte first.
#[verifier::external_body]
fn serialize_table(t: &Vec<u16>) -> (r: Vec<u8>)
    ensures
        r@ == encoded_table(t@),
{
    bincode::serialize(t).expect("a vector of integers serializes")
}

/// `bincode::serialize` of a vector of pairs: its length in eight bytes, then for each
/// pair the length of the text, the text, and the number in eight bytes.
#[verifier::external_body]
fn serialize_ages(p: &Vec<(String, u64)>) -> (r: Vec<u8>)
    ensures
        r@ == encoded_ages(crate::cache::ages::pairs_of(p@)),
{
    bincode::serialize(p).expect("a vector of pairs serializes")
}

/// `bincode::deserialize` of a vector of numbers: it succeeds on the bytes that begin
/// with the serialized form of one, whatever follows, and gives that one.
#[verifier::external_body]
fn deserialize_table(data: &[u8]) -> (r: Option<Vec<u16>>)
    ensures
        match r {
            Some(t) => encoded_table(t@).is_prefix_of(data@),
            None => forall|t: Seq<u16>|
                t.len() <= u64::MAX ==> !(#[trigger] encoded_table(t).is_prefix_of(data@)),
        },
{
    bincode::deserialize(data).ok()
}

/// `bincode::deserialize` of a vector of pairs: it succeeds on the bytes that begin
/// with the serialized form of one, whatever follows, and gives that one.
#[verifier::external_body]
fn deserialize_ages(data: &[u8]) -> (r: Option<Vec<(String, u64)>>)
    ensures
        match r {
            Some(p) => fits(crate::cache::ages::pairs_of(p@)) && encoded_ages(
                crate::cache::ages::pairs_of(p@),
            ).is_prefix_of(data@),
            None => forall|p: Seq<(Seq<char>, u64)>|
                fits(p) ==> !(#[trigger] encoded_ages(p).is_prefix_of(data@)),
        },
{
    bincode::deserialize(data).ok()
}

pub proof fn lemma_table_bytes(t: Seq<u16>)
    ensures
        table_bytes(t).len() == 2 * t.len(),
        forall|i: int|
            0 <= i < t.len() ==> #[trigger] table_bytes(t).subrange(2 * i, 2 * i + 2)
                == vstd::bytes::spec_u16_to_le_bytes(t[i]),
    decreases t.len(),
{
    vstd::bytes::lemma_auto_spec_u16_to_from_le_bytes();
    if t.len() > 0 {
        let q = t.drop_last();
        lemma_table_bytes(q);
        assert forall|i: int| 0 <= i < t.len() implies #[trigger] table_bytes(t).subrange(
            2 * i,
            2 * i + 2,
        ) == vstd::bytes::spec_u16_to_le_bytes(t[i]) by {
            if i < q.len() {
                assert(table_bytes(t).subrange(2 * i, 2 * i + 2) =~= table_bytes(q).subrange(
                    2 * i,
                    2 * i + 2,
                ));
            } else {
                assert(table_bytes(t).subrange(2 * i, 2 * i + 2)
                    =~= vstd::bytes::spec_u16_to_le_bytes(t[i]));
            }
        }
    }
}

/// Bytes begin with at most one table.
proof fn lemma_table_unique(a: Seq<u16>, b: Seq<u16>, data: Seq<u8>)
    requires
        a.len() <= u64::MAX,
        b.len() <= u64::MAX,
        encoded_table(a).is_prefix_of(data),
        encoded_table(b).is_prefix_of(data),
    ensures
        a == b,
{
    vstd::bytes::lemma_auto_spec_u64_to_from_le_bytes();
    vstd::bytes::lemma_auto_spec_u16_to_from_le_bytes();
    lemma_table_bytes(a);
    lemma_table_bytes(b);
    let ha = vstd::bytes::spec_u64_to_le_bytes(a.len() as u64);
    let hb = vstd::bytes::spec_u64_to_le_bytes(b.len() as u64);
    assert(ha =~= encoded_table(a).take(8));
    assert(hb =~= encoded_table(b).take(8));
    assert(encoded_table(a).take(8) =~= data.take(8));
    assert(encoded_table(b).take(8) =~= data.take(8));
    assert(vstd::bytes::spec_u64_from_le_bytes(ha) == a.len() as u64);
    assert(vstd::bytes::spec_u64_from_le_bytes(hb) == b.len() as u64);
    assert(a.len() == b.len());
    assert forall|i: int| 0 <= i < a.len() implies a[i] == b[i] by {
        let ea = table_bytes(a).subrange(2 * i, 2 * i + 2);
        let eb = table_bytes(b).subrange(2 * i, 2 * i + 2);
        assert(ea =~= data.subrange(8 + 2 * i, 10 + 2 * i)) by {
            assert(encoded_table(a).subrange(8 + 2 * i, 10 + 2 * i) =~= ea);
            assert(encoded_table(a).subrange(8 + 2 * i, 10 + 2 * i) =~= data.subrange(
                8 + 2 * i,
                10 + 2 * i,
            ));
        }
        assert(eb =~= data.subrange(8 + 2 * i, 10 + 2 * i)) by {
            assert(encoded_table(b).subrange(8 + 2 * i, 10 + 2 * i) =~= eb);
            assert(encoded_table(b).subrange(8 + 2 * i, 10 + 2 * i) =~= data.subrange(
                8 + 2 * i,
                10 + 2 * i,
            ));
        }
        assert(vstd::bytes::spec_u16_from_le_bytes(ea) == a[i]);
        assert(vstd::bytes::spec_u16_from_le_bytes(eb) == b[i]);
    }
    assert(a =~= b);
}

proof fn lemma_entry(range: Seq<char>, age: u64, rest: Seq<u8>)
    requires
        vstd::utf8::encode_utf8(range).len() <= u64::MAX,
    ensures
        ({
            let k = vstd::utf8::encode_utf8(range);
            let d = entry_bytes(range, age) + rest;
            &&& entry_bytes(range, age).len() == 16 + k.len() as int
            &&& vstd::bytes::spec_u64_from_le_bytes(d.take(8)) == k.len()
            &&& d.subrange(8, 8 + k.len() as int) == k
            &&& vstd::bytes::spec_u64_from_le_bytes(d.subrange(8 + k.len() as int, 16 + k.len() as int)) == age
            &&& d.skip(16 + k.len() as int) == rest
        }),
{
    vstd::bytes::lemma_auto_spec_u64_to_from_le_bytes();
    let k = vstd::utf8::encode_utf8(range);
    let h = vstd::bytes::spec_u64_to_le_bytes(k.len() as u64);
    let v = vstd::bytes::spec_u64_to_le_bytes(age);
    let d = entry_bytes(range, age) + rest;
    assert(d.take(8) =~= h);
    assert(d.subrange(8, 8 + k.len() as int) =~= k);
    assert(d.subrange(8 + k.len() as int, 16 + k.len() as int) =~= v);
    assert(d.skip(16 + k.len() as int) =~= rest);
}

proof fn lemma_pairs_unique(a: Seq<(Seq<char>, u64)>, b: Seq<(Seq<char>, u64)>, ra: Seq<u8>, rb: Seq<u8>)
    requires
        a.len() == b.len(),
        fits(a),
        fits(b),
        pair_bytes(a) + ra == pair_bytes(b) + rb,
    ensures
        a == b,
    decreases a.len(),
{
    if a.len() > 0 {
        let ta = pair_bytes(a.drop_first()) + ra;
        let tb = pair_bytes(b.drop_first()) + rb;
        let ka = vstd::utf8::encode_utf8(a[0].0);
        let kb = vstd::utf8::encode_utf8(b[0].0);
        lemma_entry(a[0].0, a[0].1, ta);
        lemma_entry(b[0].0, b[0].1, tb);
        assert(pair_bytes(a) + ra =~= entry_bytes(a[0].0, a[0].1) + ta);
        assert(pair_bytes(b) + rb =~= entry_bytes(b[0].0, b[0].1) + tb);
        assert(ka.len() == kb.len());
        assert(ka == kb);
        vstd::utf8::encode_utf8_decode_utf8(a[0].0);
        vstd::utf8::encode_utf8_decode_utf8(b[0].0);
        assert(a[0] == b[0]);
        assert forall|i: int| 0 <= i < a.drop_first().len() implies vstd::utf8::encode_utf8(
            (#[trigger] a.drop_first()[i]).0,
        ).len() <= u64::MAX by {
            assert(a.drop_first()[i] == a[i + 1]);
        }
        assert forall|i: int| 0 <= i < b.drop_first().len() implies vstd::utf8::encode_utf8(
            (#[trigger] b.drop_first()[i]).0,
        ).len() <= u64::MAX by {
            assert(b.drop_first()[i] == b[i + 1]);
        }
        lemma_pairs_unique(a.drop_first(), b.drop_first(), ra, rb);
        assert forall|i: int| 0 <= i < a.len() implies a[i] == b[i] by {
            if i > 0 {
                assert(a.drop_first()[i - 1] == a[i]);
                assert(b.drop_first()[i - 1] == b[i]);
            }
        }
    }
    assert(a =~= b);
}

/// Bytes begin with at most one age list.
proof fn lemma_ages_unique(a: Seq<(Seq<char>, u64)>, b: Seq<(Seq<char>, u64)>, data: Seq<u8>)
    requires
        fits(a),
        fits(b),
        encoded_ages(a).is_prefix_of(data),
        encoded_ages(b).is_prefix_of(data),
    ensures
        a == b,
{
    vstd::bytes::lemma_auto_spec_u64_to_from_le_bytes();
    let ha = vstd::bytes::spec_u64_to_le_bytes(a.len() as u64);
    let hb = vstd::bytes::spec_u64_to_le_bytes(b.len() as u64);
    let ra = data.skip(encoded_ages(a).len() as int);
    let rb = data.skip(encoded_ages(b).len() as int);
    assert(data =~= encoded_ages(a) + ra);
    assert(data =~= encoded_ages(b) + rb);
    assert(ha =~= data.take(8));
    assert(hb =~= data.take(8));
    assert(vstd::bytes::spec_u64_from_le_bytes(ha) == a.len() as u64);
    assert(vstd::bytes::spec_u64_from_le_bytes(hb) == b.len() as u64);
    assert(pair_bytes(a) + ra =~= data.skip(8));
    assert(pair_bytes(b) + rb =~= data.skip(8));
    lemma_pairs_unique(a, b, ra, rb);
}

pub proof fn lemma_decode_table(t: Seq<u16>)
    requires
        t.len() <= u64::MAX,
    ensures
        decoded_table(encoded_table(t)) == Some(t),
{
    let data = encoded_table(t);
    assert(data =~= data.subrange(0, data.len() as int));
    assert(encoded_table(t).is_prefix_of(data));
    let u = choose|u: Seq<u16>| u.len() <= u64::MAX && #[trigger] encoded_table(u).is_prefix_of(data);
    lemma_table_unique(t, u, data);
}

pub proof fn lemma_decode_ages(p: Seq<(Seq<char>, u64)>)
    requires
        fits(p),
    ensures
        decoded_ages(encoded_ages(p)) == Some(p),
{
    let data = encoded_ages(p);
    assert(data =~= data.subrange(0, data.len() as int));
    assert(encoded_ages(p).is_prefix_of(data));
    let q = choose|q: Seq<(Seq<char>, u64)>| fits(q) && #[trigger] encoded_ages(q).is_prefix_of(data);
    lemma_ages_unique(p, q, data);
}

// ---------------------------------------------------------------------------
// The text file
// ---------------------------------------------------------------------------

/// A line of the text.
pub open spec fn info_line(key: Seq<char>, value: Seq<char>) -> Seq<char> {
    key + seq!['='] + value
}

/// The text with the counters and the hashes, one key and value on each line.
pub open spec fn info_text(
    count: u32,
    size: u64,
    pointer: usize,
    ages_hash: Seq<char>,
    lru_hash: Seq<char>,
) -> Seq<char> {
    info_line("formatVersion"@, "1"@) + seq!['\n'] + (info_line(
        "cacheCount"@,
        crate::number::decimal(count as nat),
    ) + seq!['\n'] + (info_line("cacheSize"@, crate::number::decimal(size as nat)) + seq!['\n'] + (
    info_line("lruClearPointer"@, crate::number::decimal(pointer as nat)) + seq!['\n'] + (info_line(
        "agesHash"@,
        ages_hash,
    ) + seq!['\n'] + info_line("lruHash"@, lru_hash)))))
}

/// The value of the last line with that key.
pub open spec fn info_field(lines: Seq<Seq<char>>, key: Seq<char>) -> Option<Seq<char>>
    decreases lines.len(),
{
    if lines.len() == 0 {
        None
    } else {
        match crate::text::split_once(lines.last(), '=') {
            Some((k, v)) => if k == key {
                Some(v)
            } else {
                info_field(lines.drop_last(), key)
            },
            None => info_field(lines.drop_last(), key),
        }
    }
}

/// A line whose value is not the number that its key asks for.
pub open spec fn is_bad_line(line: Seq<char>) -> bool {
    match crate::text::split_once(line, '=') {
        Some((k, v)) => {
            ||| k == "formatVersion"@ && crate::number::parse_unsigned(v, u32::MAX as nat) is None
            ||| k == "cacheCount"@ && crate::number::parse_unsigned(v, u32::MAX as nat) is None
            ||| k == "cacheSize"@ && crate::number::parse_unsigned(v, u64::MAX as nat) is None
            ||| k == "lruClearPointer"@ && crate::number::parse_unsigned(v, usize::MAX as nat) is None
        },
        None => false,
    }
}

/// The number that a field writes.
pub open spec fn info_number(lines: Seq<Seq<char>>, key: Seq<char>, max: nat) -> Option<nat> {
    match info_field(lines, key) {
        Some(v) => crate::number::parse_unsigned(v, max),
        None => None,
    }
}

/// What the text says: no line has a bad value, every field but the version is there,
/// and the version, where there is one, is the first.
pub open spec fn parsed_info(text: Seq<char>) -> Option<(u32, u64, usize, Seq<char>, Seq<char>)> {
    let lines = crate::text::lines(text);
    let version = info_number(lines, "formatVersion"@, u32::MAX as nat);
    if exists|i: int| 0 <= i < lines.len() && is_bad_line(#[trigger] lines[i]) {
        None
    } else if version is Some && version != Some(1nat) {
        None
    } else {
        match (
            info_number(lines, "cacheCount"@, u32::MAX as nat),
            info_number(lines, "cacheSize"@, u64::MAX as nat),
            info_number(lines, "lruClearPointer"@, usize::MAX as nat),
            info_field(lines, "agesHash"@),
            info_field(lines, "lruHash"@),
        ) {
            (Some(count), Some(size), Some(pointer), Some(ages), Some(lru)) => Some(
                (count as u32, size as u64, pointer as usize, ages, lru),
            ),
            _ => None,
        }
    }
}

/// The state that the text and the two binary files describe, where `ages_sum` and `lru_sum`
/// are the hashes of the files: the text can be read and holds these hashes, and the files
/// can be decoded.
pub open spec fn restored_with(
    text: Seq<char>,
    ages: Seq<u8>,
    lru: Seq<u8>,
    ages_sum: Seq<char>,
    lru_sum: Seq<char>,
) -> Option<StateView> {
    match parsed_info(text) {
        Some((count, size, pointer, ages_hash, lru_hash)) => {
            if ages_sum != ages_hash || lru_sum != lru_hash {
                None
            } else {
                match (decoded_ages(ages), decoded_table(lru)) {
                    (Some(p), Some(t)) => Some(
                        StateView {
                            cache_count: count,
                            cache_size: size,
                            lru_clear_pointer: pointer,
                            static_range_ages: crate::cache::ages::map_of(p),
                            lru_cache_table: t,
                        },
                    ),
                    _ => None,
                }
            }
        },
        None => None,
    }
}

/// The state that the text and the two binary files describe.
pub open spec fn restored(text: Seq<char>, ages: Seq<u8>, lru: Seq<u8>) -> Option<StateView> {
    restored_with(text, ages, lru, crate::utils::sha1_text(ages), crate::utils::sha1_text(lru))
}

// ---------------------------------------------------------------------------
// Law: what is saved is what is loaded
// ---------------------------------------------------------------------------

/// A text on which lines and fields are not parted.
spec fn is_plain(s: Seq<char>) -> bool {
    !s.contains('\n') && !s.contains('\r') && !s.contains('=')
}

proof fn lemma_plain_decimal(n: nat)
    ensures
        is_plain(crate::number::decimal(n)),
{
    crate::number::lemma_decimal(n);
    let s = crate::number::decimal(n);
    assert forall|i: int| 0 <= i < s.len() implies s[i] != '\n' && s[i] != '\r' && s[i] != '=' by {
        assert(crate::number::is_digit(s[i]));
    }
}

proof fn lemma_plain_hash(data: Seq<u8>)
    ensures
        is_plain(crate::utils::sha1_text(data)),
{
    let s = crate::utils::sha1_text(data);
    crate::utils::hex_text_shape(crate::utils::sha1_digest(data));
    assert forall|i: int| 0 <= i < s.len() implies s[i] != '\n' && s[i] != '\r' && s[i] != '=' by {
        assert(crate::types::is_lower_hex(s[i]));
    }
}

proof fn lemma_plain_keys()
    ensures
        is_plain("formatVersion"@),
        is_plain("cacheCount"@),
        is_plain("cacheSize"@),
        is_plain("lruClearPointer"@),
        is_plain("agesHash"@),
        is_plain("lruHash"@),
        "formatVersion"@.len() == 13,
        "cacheCount"@.len() == 10,
        "cacheSize"@.len() == 9,
        "lruClearPointer"@.len() == 15,
        "agesHash"@.len() == 8,
        "lruHash"@.len() == 7,
        is_plain("1"@),
        "1"@ == crate::number::decimal(1),
{
    reveal_strlit("formatVersion");
    reveal_strlit("cacheCount");
    reveal_strlit("cacheSize");
    reveal_strlit("lruClearPointer");
    reveal_strlit("agesHash");
    reveal_strlit("lruHash");
    reveal_strlit("1");
    assert("1"@ =~= crate::number::decimal(1));
}

proof fn lemma_info_line(key: Seq<char>, value: Seq<char>)
    requires
        is_plain(key),
        is_plain(value),
    ensures
        ({
            let l = info_line(key, value);
            &&& l.len() > 0
            &&& !l.contains('\n')
            &&& l.last() != '\r'
            &&& crate::text::split_once(l, '=') == Some((key, value))
        }),
{
    let l = info_line(key, value);
    crate::text::lemma_split_first(key, '=', value);
    assert forall|i: int| 0 <= i < l.len() implies l[i] != '\n' && l[i] != '\r' by {
        if i < key.len() {
            assert(key.contains(key[i]));
        } else if i > key.len() {
            assert(value.contains(value[i - key.len() - 1]));
        }
    }
}

/// The fields of the text, one key and value on each line.
pub open spec fn info_fields(
    count: u32,
    size: u64,
    pointer: usize,
    ages_hash: Seq<char>,
    lru_hash: Seq<char>,
) -> Seq<(Seq<char>, Seq<char>)> {
    seq![
        ("formatVersion"@, "1"@),
        ("cacheCount"@, crate::number::decimal(count as nat)),
        ("cacheSize"@, crate::number::decimal(size as nat)),
        ("lruClearPointer"@, crate::number::decimal(pointer as nat)),
        ("agesHash"@, ages_hash),
        ("lruHash"@, lru_hash),
    ]
}

/// The lines of some fields.
pub open spec fn field_lines(fields: Seq<(Seq<char>, Seq<char>)>) -> Seq<Seq<char>> {
    Seq::new(fields.len(), |i: int| info_line(fields[i].0, fields[i].1))
}

/// The text of some fields.
pub open spec fn fields_text(fields: Seq<(Seq<char>, Seq<char>)>) -> Seq<char> {
    crate::text::join(field_lines(fields), seq!['\n'])
}

spec fn are_plain(fields: Seq<(Seq<char>, Seq<char>)>) -> bool {
    forall|i: int| 0 <= i < fields.len() ==> is_plain((#[trigger] fields[i]).0) && is_plain(fields[i].1)
}

/// The text of a state is that of its fields.
pub proof fn info_text_is_of_fields(
    count: u32,
    size: u64,
    pointer: usize,
    ages_hash: Seq<char>,
    lru_hash: Seq<char>,
)
    ensures
        info_text(count, size, pointer, ages_hash, lru_hash) == fields_text(
            info_fields(count, size, pointer, ages_hash, lru_hash),
        ),
{
    let l = field_lines(info_fields(count, size, pointer, ages_hash, lru_hash));
    let n = seq!['\n'];
    let l5 = l.drop_last();
    let l4 = l5.drop_last();
    let l3 = l4.drop_last();
    let l2 = l3.drop_last();
    assert(crate::text::join(l2.drop_last(), n) == l[0]);
    assert(crate::text::join(l2, n) == l[0] + n + l[1]);
    assert(crate::text::join(l3, n) == l[0] + n + l[1] + n + l[2]);
    assert(crate::text::join(l4, n) == l[0] + n + l[1] + n + l[2] + n + l[3]);
    assert(crate::text::join(l5, n) == l[0] + n + l[1] + n + l[2] + n + l[3] + n + l[4]);
    assert(crate::text::join(l, n) == l[0] + n + l[1] + n + l[2] + n + l[3] + n + l[4] + n + l[5]);
    assert(info_text(count, size, pointer, ages_hash, lru_hash) =~= crate::text::join(l, n));
}

proof fn lemma_field_lines(fields: Seq<(Seq<char>, Seq<char>)>)
    requires
        are_plain(fields),
    ensures
        crate::text::lines(fields_text(fields)) == field_lines(fields),
        forall|i: int|
            0 <= i < fields.len() ==> crate::text::split_once(#[trigger] field_lines(fields)[i], '=')
                == Some(fields[i]),
{
    let l = field_lines(fields);
    assert forall|i: int| 0 <= i < l.len() implies crate::text::is_line(#[trigger] l[i])
        && crate::text::split_once(l[i], '=') == Some(fields[i]) by {
        assert(is_plain(fields[i].0));
        lemma_info_line(fields[i].0, fields[i].1);
    }
    crate::text::lemma_lines_of_joined(l);
}

/// A key that no field has gives nothing.
proof fn lemma_field_absent(fields: Seq<(Seq<char>, Seq<char>)>, key: Seq<char>)
    requires
        are_plain(fields),
        forall|i: int| 0 <= i < fields.len() ==> (#[trigger] fields[i]).0 != key,
    ensures
        info_field(field_lines(fields), key) is None,
    decreases fields.len(),
{
    if fields.len() > 0 {
        let front = fields.drop_last();
        lemma_field_lines(fields);
        assert(field_lines(fields).drop_last() =~= field_lines(front));
        assert forall|i: int| 0 <= i < front.len() implies is_plain((#[trigger] front[i]).0) && is_plain(
            front[i].1,
        ) && front[i].0 != key by {
            assert(front[i] == fields[i]);
        }
        lemma_field_absent(front, key);
        assert(field_lines(fields).last() == field_lines(fields)[fields.len() - 1]);
    }
}

/// The value of the field that is the last one with its key.
proof fn lemma_field_present(fields: Seq<(Seq<char>, Seq<char>)>, k: int)
    requires
        are_plain(fields),
        0 <= k < fields.len(),
        forall|i: int| k < i < fields.len() ==> (#[trigger] fields[i]).0 != fields[k].0,
    ensures
        info_field(field_lines(fields), fields[k].0) == Some(fields[k].1),
    decreases fields.len(),
{
    let front = fields.drop_last();
    lemma_field_lines(fields);
    assert(field_lines(fields).last() == field_lines(fields)[fields.len() - 1]);
    if k < fields.len() - 1 {
        assert(field_lines(fields).drop_last() =~= field_lines(front));
        assert forall|i: int| 0 <= i < front.len() implies is_plain((#[trigger] front[i]).0) && is_plain(
            front[i].1,
        ) by {
            assert(front[i] == fields[i]);
        }
        assert forall|i: int| k < i < front.len() implies (#[trigger] front[i]).0 != front[k].0 by {
            assert(front[i] == fields[i]);
        }
        lemma_field_present(front, k);
        assert(fields[fields.len() - 1].0 != fields[k].0);
    }
}

/// The fields of a state are plain, have different keys, and hold the numbers that their keys
/// ask for.
proof fn lemma_info_fields(count: u32, size: u64, pointer: usize, ages_hash: Seq<char>, lru_hash: Seq<char>)
    requires
        is_plain(ages_hash),
        is_plain(lru_hash),
    ensures
        ({
            let f = info_fields(count, size, pointer, ages_hash, lru_hash);
            &&& are_plain(f)
            &&& forall|i: int, j: int| 0 <= i < j < f.len() ==> (#[trigger] f[i]).0 != (#[trigger] f[j]).0
            &&& forall|i: int| 0 <= i < f.len() ==> !is_bad_line(#[trigger] field_lines(f)[i])
            &&& crate::number::parse_unsigned(f[0].1, u32::MAX as nat) == Some(1nat)
            &&& crate::number::parse_unsigned(f[1].1, u32::MAX as nat) == Some(count as nat)
            &&& crate::number::parse_unsigned(f[2].1, u64::MAX as nat) == Some(size as nat)
            &&& crate::number::parse_unsigned(f[3].1, usize::MAX as nat) == Some(pointer as nat)
        }),
{
    lemma_plain_keys();
    lemma_plain_decimal(count as nat);
    lemma_plain_decimal(size as nat);
    lemma_plain_decimal(pointer as nat);
    crate::number::lemma_parse_decimal(1, u32::MAX as nat);
    crate::number::lemma_parse_decimal(count as nat, u32::MAX as nat);
    crate::number::lemma_parse_decimal(size as nat, u64::MAX as nat);
    crate::number::lemma_parse_decimal(pointer as nat, usize::MAX as nat);
    let f = info_fields(count, size, pointer, ages_hash, lru_hash);
    assert(are_plain(f));
    lemma_field_lines(f);
    assert forall|i: int| 0 <= i < f.len() implies !is_bad_line(#[trigger] field_lines(f)[i]) by {
        assert(crate::text::split_once(field_lines(f)[i], '=') == Some(f[i]));
    }
}

proof fn lemma_parsed_info(count: u32, size: u64, pointer: usize, ages_hash: Seq<char>, lru_hash: Seq<char>)
    requires
        is_plain(ages_hash),
        is_plain(lru_hash),
    ensures
        parsed_info(info_text(count, size, pointer, ages_hash, lru_hash)) == Some(
            (count, size, pointer, ages_hash, lru_hash),
        ),
{
    let f = info_fields(count, size, pointer, ages_hash, lru_hash);
    info_text_is_of_fields(count, size, pointer, ages_hash, lru_hash);
    lemma_info_fields(count, size, pointer, ages_hash, lru_hash);
    lemma_field_lines(f);
    lemma_field_present(f, 0);
    lemma_field_present(f, 1);
    lemma_field_present(f, 2);
    lemma_field_present(f, 3);
    lemma_field_present(f, 4);
    lemma_field_present(f, 5);
}

/// A text without its version says what it says with it.
proof fn lemma_parsed_without_version(
    count: u32,
    size: u64,
    pointer: usize,
    ages_hash: Seq<char>,
    lru_hash: Seq<char>,
)
    requires
        is_plain(ages_hash),
        is_plain(lru_hash),
    ensures
        parsed_info(fields_text(info_fields(count, size, pointer, ages_hash, lru_hash).remove(0)))
            == Some((count, size, pointer, ages_hash, lru_hash)),
{
    let f = info_fields(count, size, pointer, ages_hash, lru_hash);
    let g = f.remove(0);
    lemma_info_fields(count, size, pointer, ages_hash, lru_hash);
    assert(forall|i: int| 0 <= i < g.len() ==> (#[trigger] g[i]) == f[i + 1]);
    assert(are_plain(g));
    assert forall|i: int, j: int| 0 <= i < j < g.len() implies (#[trigger] g[i]).0 != (#[trigger] g[j]).0 by {
        assert(f[i + 1].0 != f[j + 1].0);
    }
    lemma_field_lines(g);
    assert forall|i: int| 0 <= i < g.len() implies !is_bad_line(#[trigger] field_lines(g)[i]) by {
        assert(field_lines(g)[i] == field_lines(f)[i + 1]);
    }
    assert forall|i: int| 0 <= i < g.len() implies (#[trigger] g[i]).0 != "formatVersion"@ by {
        assert(f[0].0 != f[i + 1].0);
    }
    lemma_field_absent(g, "formatVersion"@);
    lemma_field_present(g, 0);
    lemma_field_present(g, 1);
    lemma_field_present(g, 2);
    lemma_field_present(g, 3);
    lemma_field_present(g, 4);
}

/// A text with another version says nothing.
proof fn lemma_other_version(
    count: u32,
    size: u64,
    pointer: usize,
    ages_hash: Seq<char>,
    lru_hash: Seq<char>,
    version: u32,
)
    requires
        is_plain(ages_hash),
        is_plain(lru_hash),
        version != 1,
    ensures
        parsed_info(
            fields_text(
                info_fields(count, size, pointer, ages_hash, lru_hash).update(
                    0,
                    ("formatVersion"@, crate::number::decimal(version as nat)),
                ),
            ),
        ) is None,
{
    let f = info_fields(count, size, pointer, ages_hash, lru_hash);
    let g = f.update(0, ("formatVersion"@, crate::number::decimal(version as nat)));
    lemma_info_fields(count, size, pointer, ages_hash, lru_hash);
    lemma_plain_keys();
    lemma_plain_decimal(version as nat);
    assert(are_plain(g));
    lemma_field_lines(g);
    assert forall|i: int| 0 < i < g.len() implies (#[trigger] g[i]).0 != g[0].0 by {
        assert(f[0].0 != f[i].0);
    }
    lemma_field_present(g, 0);
    crate::number::lemma_parse_decimal(version as nat, u32::MAX as nat);
}

/// A text without one of its other lines says nothing.
proof fn lemma_missing_line(
    count: u32,
    size: u64,
    pointer: usize,
    ages_hash: Seq<char>,
    lru_hash: Seq<char>,
    k: int,
)
    requires
        is_plain(ages_hash),
        is_plain(lru_hash),
        1 <= k < 6,
    ensures
        parsed_info(fields_text(info_fields(count, size, pointer, ages_hash, lru_hash).remove(k))) is None,
{
    let f = info_fields(count, size, pointer, ages_hash, lru_hash);
    let g = f.remove(k);
    lemma_info_fields(count, size, pointer, ages_hash, lru_hash);
    assert forall|i: int| 0 <= i < g.len() implies is_plain((#[trigger] g[i]).0) && is_plain(g[i].1)
        && g[i].0 != f[k].0 by {
        if i < k {
            assert(g[i] == f[i]);
            assert(f[i].0 != f[k].0);
        } else {
            assert(g[i] == f[i + 1]);
            assert(f[k].0 != f[i + 1].0);
        }
    }
    lemma_field_lines(g);
    lemma_field_absent(g, f[k].0);
    assert(k == 1 || k == 2 || k == 3 || k == 4 || k == 5);
}

/// What `save` writes for a state, `try_load` reads back: the text and the two files of a
/// state restore that state.
pub proof fn saved_state_is_restored(
    count: u32,
    size: u64,
    pointer: usize,
    pairs: Seq<(Seq<char>, u64)>,
    table: Seq<u16>,
)
    requires
        fits(pairs),
        table.len() <= u64::MAX,
    ensures
        restored(
            info_text(
                count,
                size,
                pointer,
                crate::utils::sha1_text(encoded_ages(pairs)),
                crate::utils::sha1_text(encoded_table(table)),
            ),
            encoded_ages(pairs),
            encoded_table(table),
        ) == Some(
            StateView {
                cache_count: count,
                cache_size: size,
                lru_clear_pointer: pointer,
                static_range_ages: crate::cache::ages::map_of(pairs),
                lru_cache_table: table,
            },
        ),
{
    lemma_plain_hash(encoded_ages(pairs));
    lemma_plain_hash(encoded_table(table));
    lemma_parsed_info(
        count,
        size,
        pointer,
        crate::utils::sha1_text(encoded_ages(pairs)),
        crate::utils::sha1_text(encoded_table(table)),
    );
    lemma_decode_ages(pairs);
    lemma_decode_table(table);
}

/// The text that `save` writes restores the state without its version line as well; with
/// another version, or without any other one of its lines, it restores nothing.
pub proof fn saved_text_is_needed_but_for_its_version(
    count: u32,
    size: u64,
    pointer: usize,
    pairs: Seq<(Seq<char>, u64)>,
    table: Seq<u16>,
    version: u32,
    line: int,
)
    requires
        fits(pairs),
        table.len() <= u64::MAX,
    ensures
        ({
            let ages = encoded_ages(pairs);
            let lru = encoded_table(table);
            let ages_hash = crate::utils::sha1_text(ages);
            let lru_hash = crate::utils::sha1_text(lru);
            let fields = info_fields(count, size, pointer, ages_hash, lru_hash);
            let other = ("formatVersion"@, crate::number::decimal(version as nat));
            &&& fields_text(fields) == info_text(count, size, pointer, ages_hash, lru_hash)
            &&& restored(fields_text(fields.remove(0)), ages, lru) == Some(
                StateView {
                    cache_count: count,
                    cache_size: size,
                    lru_clear_pointer: pointer,
                    static_range_ages: crate::cache::ages::map_of(pairs),
                    lru_cache_table: table,
                },
            )
            &&& version != 1 ==> restored(fields_text(fields.update(0, other)), ages, lru) is None
            &&& 1 <= line < 6 ==> restored(fields_text(fields.remove(line)), ages, lru) is None
        }),
{
    let ages_hash = crate::utils::sha1_text(encoded_ages(pairs));
    let lru_hash = crate::utils::sha1_text(encoded_table(table));
    lemma_plain_hash(encoded_ages(pairs));
    lemma_plain_hash(encoded_table(table));
    info_text_is_of_fields(count, size, pointer, ages_hash, lru_hash);
    lemma_parsed_without_version(count, size, pointer, ages_hash, lru_hash);
    if version != 1 {
        lemma_other_version(count, size, pointer, ages_hash, lru_hash, version);
    }
    if 1 <= line < 6 {
        lemma_missing_line(count, size, pointer, ages_hash, lru_hash, line);
    }
    lemma_decode_ages(pairs);
    lemma_decode_table(table);
}

/// A file that was changed after the text was written is refused, unless its hash is
/// still the same.
pub proof fn changed_files_are_refused(
    text: Seq<char>,
    ages: Seq<u8>,
    lru: Seq<u8>,
    other_ages: Seq<u8>,
    other_lru: Seq<u8>,
)
    requires
        restored(text, ages, lru) is Some,
        crate::utils::sha1_text(other_ages) != crate::utils::sha1_text(ages) || crate::utils::sha1_text(
            other_lru,
        ) != crate::utils::sha1_text(lru),
    ensures
        restored(text, other_ages, other_lru) is None,
{
}

// ---------------------------------------------------------------------------
// Executable operations
// ---------------------------------------------------------------------------

/// The three files of a state.
pub struct EncodedState {
    pub ages: Vec<u8>,
    pub lru: Vec<u8>,
    pub info: String,
    pub ages_hash: String,
    pub lru_hash: String,
}

fn push_info_line(out: &mut String, key: &str, value: &str)
    ensures
        final(out)@ == old(out)@ + info_line(key@, value@),
{
    let ghost before = out@;
    out.append(key);
    out.push('=');
    out.append(value);
    assert(out@ =~= before + info_line(key@, value@));
}

fn build_info(count: u32, size: u64, pointer: usize, ages_hash: &str, lru_hash: &str) -> (r: String)
    ensures
        r@ == info_text(count, size, pointer, ages_hash@, lru_hash@),
{
    let count_text = crate::number::decimal_string(count as u64);
    let size_text = crate::number::decimal_string(size);
    let pointer_text = crate::number::decimal_string(pointer as u64);
    let mut out = String::new();
    push_info_line(&mut out, "formatVersion", "1");
    out.push('\n');
    push_info_line(&mut out, "cacheCount", count_text.as_str());
    out.push('\n');
    push_info_line(&mut out, "cacheSize", size_text.as_str());
    out.push('\n');
    push_info_line(&mut out, "lruClearPointer", pointer_text.as_str());
    out.push('\n');
    push_info_line(&mut out, "agesHash", ages_hash);
    out.push('\n');
    push_info_line(&mut out, "lruHash", lru_hash);
    assert(out@ =~= info_text(count, size, pointer, ages_hash@, lru_hash@));
    out
}

/// The three files for these values.
pub fn encode_state(count: u32, size: u64, pointer: usize, ages: &RangeAges, table: &Vec<u16>) -> (r:
    EncodedState)
    ensures
        r.ages@ == encoded_ages(ages.pairs()),
        r.lru@ == encoded_table(table@),
        r.ages_hash@ == crate::utils::sha1_text(r.ages@),
        r.lru_hash@ == crate::utils::sha1_text(r.lru@),
        r.info@ == info_text(count, size, pointer, r.ages_hash@, r.lru_hash@),
{
    let ages_data = serialize_ages(ages.entries());
    let lru_data = serialize_table(table);
    let ages_hash = crate::utils::sha1_bytes(ages_data.as_slice());
    let lru_hash = crate::utils::sha1_bytes(lru_data.as_slice());
    let info = build_info(count, size, pointer, ages_hash.as_str(), lru_hash.as_str());
    EncodedState { ages: ages_data, lru: lru_data, info, ages_hash, lru_hash }
}

/// A step of saving, in the order in which the steps are taken.
#[derive(Debug)]
pub enum SaveStep {
    RemoveInfo,
    WriteAges(Vec<u8>),
    WriteLru(Vec<u8>),
    WriteInfo(String),
}

impl PersistentCacheState {
    /// The state of an empty cache.
    pub fn new() -> (r: Self)
        ensures
            r.cache_count == 0,
            r.cache_size == 0,
            r.lru_clear_pointer == 0,
            r.static_range_ages@ == Map::<Seq<char>, u64>::empty(),
            r.lru_cache_table@.len() == 1_048_576,
            forall|i: int| 0 <= i < 1_048_576 ==> r.lru_cache_table@[i] == 0,
    {
        PersistentCacheState {
            cache_count: 0,
            cache_size: 0,
            lru_clear_pointer: 0,
            static_range_ages: RangeAges::new(),
            lru_cache_table: vec![0u16; 1_048_576],
        }
    }
}

impl Default for PersistentCacheState {
    fn default() -> (r: Self)
        ensures
            r.cache_count == 0,
            r.cache_size == 0,
            r.lru_clear_pointer == 0,
            r.static_range_ages@ == Map::<Seq<char>, u64>::empty(),
            r.lru_cache_table@.len() == 1_048_576,
            forall|i: int| 0 <= i < 1_048_576 ==> r.lru_cache_table@[i] == 0,
    {
        Self::new()
    }
}

/// Whether these steps save a state: the old text goes first, then the two binary files are
/// written, and the new text with their hashes comes last.
pub open spec fn are_save_steps(
    steps: Seq<SaveStep>,
    count: u32,
    size: u64,
    pointer: usize,
    ages: Seq<(Seq<char>, u64)>,
    table: Seq<u16>,
) -> bool {
    &&& steps.len() == 4
    &&& steps[0] is RemoveInfo
    &&& steps[1] matches SaveStep::WriteAges(a) && a@ == encoded_ages(ages)
    &&& steps[2] matches SaveStep::WriteLru(l) && l@ == encoded_table(table)
    &&& steps[3] matches SaveStep::WriteInfo(info) && info@ == info_text(
        count,
        size,
        pointer,
        crate::utils::sha1_text(encoded_ages(ages)),
        crate::utils::sha1_text(encoded_table(table)),
    )
}

/// The steps that save a state. The text is the publish marker: any old one goes before
/// anything is written, and the new one comes last, so that an interrupted save can only
/// force a rescan.
pub fn save(state: &PersistentCacheState) -> (r: Vec<SaveStep>)
    ensures
        are_save_steps(
            r@,
            state.cache_count,
            state.cache_size,
            state.lru_clear_pointer,
            state.static_range_ages.pairs(),
            state.lru_cache_table@,
        ),
{
    let e = encode_state(
        state.cache_count,
        state.cache_size,
        state.lru_clear_pointer,
        &state.static_range_ages,
        &state.lru_cache_table,
    );
    let mut steps: Vec<SaveStep> = Vec::new();
    steps.push(SaveStep::RemoveInfo);
    steps.push(SaveStep::WriteAges(e.ages));
    steps.push(SaveStep::WriteLru(e.lru));
    steps.push(SaveStep::WriteInfo(e.info));
    steps
}

/// The files that make up a saved state, in the order in which they are removed.
pub fn artifacts() -> (r: Vec<String>)
    ensures
        crate::text::texts(r@) == seq!["pcache_info"@, "pcache_ages"@, "pcache_lru"@],
{
    let mut r: Vec<String> = Vec::new();
    r.push(String::from_str("pcache_info"));
    r.push(String::from_str("pcache_ages"));
    r.push(String::from_str("pcache_lru"));
    assert(crate::text::texts(r@) =~= seq!["pcache_info"@, "pcache_ages"@, "pcache_lru"@]);
    r
}

struct Info {
    count: u32,
    size: u64,
    pointer: usize,
    ages_hash: String,
    lru_hash: String,
}

spec fn number_is(o: Option<u64>, lines: Seq<Seq<char>>, key: Seq<char>, max: nat) -> bool {
    match o {
        Some(n) => info_number(lines, key, max) == Some(n as nat),
        None => info_field(lines, key) is None,
    }
}

fn read_info(text: &str) -> (r: Option<Info>)
    ensures
        match r {
            Some(i) => parsed_info(text@) == Some(
                (i.count, i.size, i.pointer, i.ages_hash@, i.lru_hash@),
            ),
            None => parsed_info(text@) is None,
        },
{
    let lines = crate::text::split_lines(text);
    let ghost all = crate::text::texts(lines@);
    let mut version: Option<u64> = None;
    let mut count: Option<u64> = None;
    let mut size: Option<u64> = None;
    let mut pointer: Option<u64> = None;
    let mut ages_hash: Option<String> = None;
    let mut lru_hash: Option<String> = None;
    let mut i: usize = 0;
    while i < lines.len()
        invariant
            i <= lines.len(),
            all == crate::text::texts(lines@),
            all == crate::text::lines(text@),
            forall|j: int| 0 <= j < i ==> !is_bad_line(#[trigger] all[j]),
            number_is(version, all.take(i as int), "formatVersion"@, u32::MAX as nat),
            number_is(count, all.take(i as int), "cacheCount"@, u32::MAX as nat),
            number_is(size, all.take(i as int), "cacheSize"@, u64::MAX as nat),
            number_is(pointer, all.take(i as int), "lruClearPointer"@, usize::MAX as nat),
            crate::text::opt_text(ages_hash) == info_field(all.take(i as int), "agesHash"@),
            crate::text::opt_text(lru_hash) == info_field(all.take(i as int), "lruHash"@),
        decreases lines.len() - i,
    {
        let line = lines[i].as_str();
        assert(all.take(i + 1).drop_last() =~= all.take(i as int));
        assert(all.take(i + 1).last() == line@);
        assert(all[i as int] == line@);
        match crate::text::split_at_char(line, '=') {
            Some((key, value)) => {
                if crate::text::str_eq(key.as_str(), "formatVersion") {
                    version = crate::number::read_unsigned(value.as_str(), u32::MAX as u64);
                    if version.is_none() {
                        assert(is_bad_line(all[i as int]));
                        return None;
                    }
                }
                if crate::text::str_eq(key.as_str(), "cacheCount") {
                    count = crate::number::read_unsigned(value.as_str(), u32::MAX as u64);
                    if count.is_none() {
                        assert(is_bad_line(all[i as int]));
                        return None;
                    }
                }
                if crate::text::str_eq(key.as_str(), "cacheSize") {
                    size = crate::number::read_unsigned(value.as_str(), u64::MAX);
                    if size.is_none() {
                        assert(is_bad_line(all[i as int]));
                        return None;
                    }
                }
                if crate::text::str_eq(key.as_str(), "lruClearPointer") {
                    pointer = crate::number::read_unsigned(value.as_str(), usize::MAX as u64);
                    if pointer.is_none() {
                        assert(is_bad_line(all[i as int]));
                        return None;
                    }
                }
                if crate::text::str_eq(key.as_str(), "agesHash") {
                    ages_hash = Some(value.clone());
                }
                if crate::text::str_eq(key.as_str(), "lruHash") {
                    lru_hash = Some(value.clone());
                }
            },
            None => {},
        }
        i += 1;
    }
    assert(all.take(i as int) =~= all);
    let version_ok = match version {
        Some(v) => v == 1,
        None => true,
    };
    if !version_ok {
        return None;
    }
    match (count, size, pointer, ages_hash, lru_hash) {
        (Some(count), Some(size), Some(pointer), Some(ages_hash), Some(lru_hash)) => Some(
            Info { count: count as u32, size, pointer: pointer as usize, ages_hash, lru_hash },
        ),
        _ => None,
    }
}

/// The state that the files describe. A file that is missing is given as `None`.
pub fn try_load(info: Option<&str>, ages: Option<&[u8]>, lru: Option<&[u8]>) -> (r: Option<
    PersistentCacheState,
>)
    ensures
        match (info, ages, lru) {
            (Some(text), Some(a), Some(l)) => match r {
                Some(s) => restored(text@, a@, l@) == Some(s@),
                None => restored(text@, a@, l@) is None,
            },
            _ => r is None,
        },
{
    let (text, a, l) = match (info, ages, lru) {
        (Some(text), Some(a), Some(l)) => (text, a, l),
        _ => return None,
    };
    let ages_sum = crate::utils::sha1_bytes(a);
    let lru_sum = crate::utils::sha1_bytes(l);
    load_checked(text, a, l, ages_sum.as_str(), lru_sum.as_str())
}

/// The state that the files describe, given the hashes of the two binary files.
pub fn load_checked(text: &str, a: &[u8], l: &[u8], ages_sum: &str, lru_sum: &str) -> (r: Option<
    PersistentCacheState,
>)
    ensures
        match r {
            Some(s) => restored_with(text@, a@, l@, ages_sum@, lru_sum@) == Some(s@),
            None => restored_with(text@, a@, l@, ages_sum@, lru_sum@) is None,
        },
{
    let i = match read_info(text) {
        Some(i) => i,
        None => return None,
    };
    if !crate::text::str_eq(ages_sum, i.ages_hash.as_str()) {
        return None;
    }
    if !crate::text::str_eq(lru_sum, i.lru_hash.as_str()) {
        return None;
    }
    let pairs = match deserialize_ages(a) {
        Some(p) => p,
        None => {
            assert(decoded_ages(a@) is None);
            return None;
        },
    };
    proof {
        let q = choose|q: Seq<(Seq<char>, u64)>| fits(q) && #[trigger] encoded_ages(q).is_prefix_of(a@);
        lemma_ages_unique(crate::cache::ages::pairs_of(pairs@), q, a@);
    }
    let table = match deserialize_table(l) {
        Some(t) => t,
        None => {
            assert(decoded_table(l@) is None);
            return None;
        },
    };
    proof {
        assert(table@.len() == table.len());
        let t = choose|t: Seq<u16>| t.len() <= u64::MAX && #[trigger] encoded_table(t).is_prefix_of(l@);
        lemma_table_unique(table@, t, l@);
    }
    Some(
        PersistentCacheState {
            cache_count: i.count,
            cache_size: i.size,
            lru_clear_pointer: i.pointer,
            static_range_ages: RangeAges::from_pairs(&pairs),
            lru_cache_table: table,
        },
    )
}

} // verus!
