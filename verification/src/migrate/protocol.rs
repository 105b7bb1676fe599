//! The HPCACHE/1 stream: a header, the range ages, the LRU table and a digest.

use vstd::prelude::*;
use crate::cache::ages::RangeAges;
use crate::cache::persistent::StateView;

verus! {

pub const LRU_CACHE_SIZE: usize = 1_048_576;

pub const VERSION: u16 = 1;

pub const MAX_STATIC_RANGES: u32 = 65_536;

/// The state that a stream carries.
#[derive(Debug)]
pub struct LegacyCacheState {
    pub cache_count: u32,
    pub cache_size: u64,
    pub lru_clear_pointer: usize,
    pub static_range_ages: RangeAges,
    pub lru_cache_table: Vec<u16>,
}

impl View for LegacyCacheState {
    type V = StateView;

    open spec fn view(&self) -> StateView {
        StateView {
            cache_count: self.cache_count,
            cache_size: self.cache_size,
            lru_clear_pointer: self.lru_clear_pointer,
            static_range_ages: self.static_range_ages@,
            lru_cache_table: self.lru_cache_table@,
        }
    }
}

/// A number of the stream that is checked.
#[derive(Debug, Clone, Copy, PartialEq, Eq, Structural)]
pub enum Field {
    LruClearPointer,
    StaticRangeCount,
    StaticRangeLength,
    LruLength,
}

/// The name of a field in messages.
pub open spec fn field_name(f: Field) -> Seq<char> {
    match f {
        Field::LruClearPointer => "lru_clear_pointer"@,
        Field::StaticRangeCount => "static_range_count"@,
        Field::StaticRangeLength => "static range length"@,
        Field::LruLength => "lru_length"@,
    }
}

impl Field {
    pub fn name(&self) -> (r: &'static str)
        ensures
            r@ == field_name(*self),
    {
        match self {
            Field::LruClearPointer => "lru_clear_pointer",
            Field::StaticRangeCount => "static_range_count",
            Field::StaticRangeLength => "static range length",
            Field::LruLength => "lru_length",
        }
    }
}

/// Why a stream is refused.
#[derive(Debug)]
pub enum ProtocolError {
    /// The stream ends before all of it was read.
    Io,
    Magic,
    Version(u16),
    InvalidValue { field: Field, value: u64 },
    InvalidRange(Vec<u8>),
    DuplicateRange(String),
    DigestMismatch,
    TrailingData,
}

/// Why a stream is refused, with its bytes and texts as sequences.
pub ghost enum ProtocolErrorView {
    Io,
    Magic,
    Version(u16),
    InvalidValue(Field, u64),
    InvalidRange(Seq<u8>),
    DuplicateRange(Seq<char>),
    DigestMismatch,
    TrailingData,
}

impl View for ProtocolError {
    type V = ProtocolErrorView;

    open spec fn view(&self) -> ProtocolErrorView {
        match self {
            ProtocolError::Io => ProtocolErrorView::Io,
            ProtocolError::Magic => ProtocolErrorView::Magic,
            ProtocolError::Version(v) => ProtocolErrorView::Version(*v),
            ProtocolError::InvalidValue { field, value } => ProtocolErrorView::InvalidValue(*field, *value),
            ProtocolError::InvalidRange(b) => ProtocolErrorView::InvalidRange(b@),
            ProtocolError::DuplicateRange(s) => ProtocolErrorView::DuplicateRange(s@),
            ProtocolError::DigestMismatch => ProtocolErrorView::DigestMismatch,
            ProtocolError::TrailingData => ProtocolErrorView::TrailingData,
        }
    }
}

/// The text that some bytes make, with a mark for each that makes none.
pub uninterp spec fn lossy_text(bytes: Seq<u8>) -> Seq<char>;

/// `String::from_utf8_lossy`: the text is a function of the bytes.
#[verifier::external_body]
fn read_lossy(bytes: &[u8]) -> (r: String)
    ensures
        r@ == lossy_text(bytes@),
{
    String::from_utf8_lossy(bytes).into_owned()
}

/// A text in quotation marks, with escapes for what cannot be shown.
pub uninterp spec fn quoted_text(s: Seq<char>) -> Seq<char>;

/// `<str as Debug>::fmt`: the quoted text is a function of the text.
#[verifier::external_body]
fn quoted(s: &str) -> (r: String)
    ensures
        r@ == quoted_text(s@),
{
    format!("{:?}", s)
}

/// The text that describes an error to a reader.
pub open spec fn protocol_error_text(e: ProtocolErrorView) -> Seq<char> {
    match e {
        ProtocolErrorView::Io => "failed to read HPCACHE/1 stream: failed to fill whole buffer"@,
        ProtocolErrorView::Magic => "invalid HPCACHE/1 magic"@,
        ProtocolErrorView::Version(v) => "unsupported HPCACHE/1 version "@ + crate::number::decimal(
            v as nat,
        ),
        ProtocolErrorView::InvalidValue(field, value) => "invalid "@ + field_name(field) + ": "@
            + crate::number::decimal(value as nat),
        ProtocolErrorView::InvalidRange(b) => "invalid static range "@ + quoted_text(lossy_text(b)),
        ProtocolErrorView::DuplicateRange(s) => "duplicate static range "@ + s,
        ProtocolErrorView::DigestMismatch => "HPCACHE/1 SHA-256 digest mismatch"@,
        ProtocolErrorView::TrailingData => "HPCACHE/1 stream has trailing bytes"@,
    }
}

impl ProtocolError {
    /// The text that describes the error to a reader.
    pub fn to_text(&self) -> (r: String)
        ensures
            r@ == protocol_error_text(self@),
    {
        match self {
            ProtocolError::Io => String::from_str(
                "failed to read HPCACHE/1 stream: failed to fill whole buffer",
            ),
            ProtocolError::Magic => String::from_str("invalid HPCACHE/1 magic"),
            ProtocolError::Version(v) => {
                let mut out = String::from_str("unsupported HPCACHE/1 version ");
                crate::number::push_decimal(&mut out, *v as u64);
                out
            },
            ProtocolError::InvalidValue { field, value } => {
                let mut out = String::from_str("invalid ");
                out.append(field.name());
                out.append(": ");
                crate::number::push_decimal(&mut out, *value);
                out
            },
            ProtocolError::InvalidRange(b) => {
                let text = read_lossy(b.as_slice());
                crate::text::concat("invalid static range ", quoted(text.as_str()).as_str())
            },
            ProtocolError::DuplicateRange(s) => crate::text::concat(
                "duplicate static range ",
                s.as_str(),
            ),
            ProtocolError::DigestMismatch => String::from_str("HPCACHE/1 SHA-256 digest mismatch"),
            ProtocolError::TrailingData => String::from_str("HPCACHE/1 stream has trailing bytes"),
        }
    }
}

// ---------------------------------------------------------------------------
// The format
// ---------------------------------------------------------------------------

/// The eight bytes that a stream begins with.
pub open spec fn magic() -> Seq<u8> {
    seq![72u8, 65u8, 84u8, 72u8, 80u8, 67u8, 48u8, 49u8]
}

pub open spec fn u16_at(b: Seq<u8>, i: int) -> u16 {
    vstd::bytes::spec_u16_from_le_bytes(b.subrange(i, i + 2))
}

pub open spec fn u32_at(b: Seq<u8>, i: int) -> u32 {
    vstd::bytes::spec_u32_from_le_bytes(b.subrange(i, i + 4))
}

pub open spec fn u64_at(b: Seq<u8>, i: int) -> u64 {
    vstd::bytes::spec_u64_from_le_bytes(b.subrange(i, i + 8))
}

/// A digit or a letter from `a` to `f`.
pub open spec fn is_range_byte(b: u8) -> bool {
    48 <= b <= 57 || 97 <= b <= 102
}

/// Four bytes that name a static range.
pub open spec fn is_range(b: Seq<u8>) -> bool {
    forall|i: int| 0 <= i < b.len() ==> is_range_byte(#[trigger] b[i])
}

/// Bytes of ASCII as characters.
pub open spec fn ascii_text(b: Seq<u8>) -> Seq<char> {
    Seq::new(b.len(), |i: int| b[i] as char)
}

/// Where the entry of the `i`th range begins: two bytes of length, four of the range,
/// eight of its age.
pub open spec fn range_at(i: int) -> int {
    30 + 14 * i
}

/// Whether a range stands in the list.
pub open spec fn is_listed(p: Seq<(Seq<char>, u64)>, range: Seq<char>) -> bool {
    exists|i: int| 0 <= i < p.len() && (#[trigger] p[i]).0 == range
}

/// The first `n` entries of the list, or the first thing that is wrong with them.
pub open spec fn ranges(b: Seq<u8>, n: nat) -> Result<Seq<(Seq<char>, u64)>, ProtocolErrorView>
    decreases n,
{
    if n == 0 {
        Ok(Seq::empty())
    } else {
        match ranges(b, (n - 1) as nat) {
            Err(e) => Err(e),
            Ok(p) => {
                let at = range_at(n - 1);
                let name = b.subrange(at + 2, at + 6);
                if b.len() < at + 2 {
                    Err(ProtocolErrorView::Io)
                } else if u16_at(b, at) != 4 {
                    Err(ProtocolErrorView::InvalidValue(Field::StaticRangeLength, u16_at(b, at) as u64))
                } else if b.len() < at + 6 {
                    Err(ProtocolErrorView::Io)
                } else if !is_range(name) {
                    Err(ProtocolErrorView::InvalidRange(name))
                } else if b.len() < at + 14 {
                    Err(ProtocolErrorView::Io)
                } else if is_listed(p, ascii_text(name)) {
                    Err(ProtocolErrorView::DuplicateRange(ascii_text(name)))
                } else {
                    Ok(p.push((ascii_text(name), u64_at(b, at + 6))))
                }
            },
        }
    }
}

/// The entries of the table that begins at `at`.
pub open spec fn table(b: Seq<u8>, at: int) -> Seq<u16> {
    Seq::new(LRU_CACHE_SIZE as nat, |i: int| u16_at(b, at + 2 * i))
}

/// Where the digest of a stream begins.
pub open spec fn body_end(b: Seq<u8>) -> int {
    range_at(u32_at(b, 26) as int) + 4 + 2 * LRU_CACHE_SIZE
}

/// What reading a stream gives, where `digest` is the digest of what stands before its own:
/// the state and the list of its ranges, or the first thing that is wrong.
pub open spec fn checked_result(b: Seq<u8>, digest: Seq<u8>) -> Result<
    (StateView, Seq<(Seq<char>, u64)>),
    ProtocolErrorView,
> {
    if b.len() < 8 {
        Err(ProtocolErrorView::Io)
    } else if b.take(8) != magic() {
        Err(ProtocolErrorView::Magic)
    } else if b.len() < 10 {
        Err(ProtocolErrorView::Io)
    } else if u16_at(b, 8) != VERSION {
        Err(ProtocolErrorView::Version(u16_at(b, 8)))
    } else if b.len() < 26 {
        Err(ProtocolErrorView::Io)
    } else if u32_at(b, 22) >= LRU_CACHE_SIZE {
        Err(ProtocolErrorView::InvalidValue(Field::LruClearPointer, u32_at(b, 22) as u64))
    } else if b.len() < 30 {
        Err(ProtocolErrorView::Io)
    } else if u32_at(b, 26) > MAX_STATIC_RANGES {
        Err(ProtocolErrorView::InvalidValue(Field::StaticRangeCount, u32_at(b, 26) as u64))
    } else {
        match ranges(b, u32_at(b, 26) as nat) {
            Err(e) => Err(e),
            Ok(p) => {
                let at = range_at(u32_at(b, 26) as int);
                let end = body_end(b);
                if b.len() < at + 4 {
                    Err(ProtocolErrorView::Io)
                } else if u32_at(b, at) != LRU_CACHE_SIZE {
                    Err(ProtocolErrorView::InvalidValue(Field::LruLength, u32_at(b, at) as u64))
                } else if b.len() < end + 32 {
                    Err(ProtocolErrorView::Io)
                } else if b.subrange(end, end + 32) != digest {
                    Err(ProtocolErrorView::DigestMismatch)
                } else if b.len() > end + 32 {
                    Err(ProtocolErrorView::TrailingData)
                } else {
                    Ok(
                        (
                            StateView {
                                cache_count: u32_at(b, 10),
                                cache_size: u64_at(b, 14),
                                lru_clear_pointer: u32_at(b, 22) as usize,
                                static_range_ages: crate::cache::ages::map_of(p),
                                lru_cache_table: table(b, at + 4),
                            },
                            p,
                        ),
                    )
                }
            },
        }
    }
}

/// What reading a stream gives.
pub open spec fn read_result(b: Seq<u8>) -> Result<
    (StateView, Seq<(Seq<char>, u64)>),
    ProtocolErrorView,
> {
    checked_result(b, sha256_digest(b.take(body_end(b))))
}

/// The SHA-256 digest of some bytes.
pub uninterp spec fn sha256_digest(data: Seq<u8>) -> Seq<u8>;

/// `sha2::Sha256::digest`: the digest is a function of the bytes and 32 bytes long.
#[verifier::external_body]
fn sha256(data: &[u8]) -> (r: Vec<u8>)
    ensures
        r@ == sha256_digest(data@),
        r@.len() == 32,
{
    <sha2::Sha256 as sha2::Digest>::digest(data).to_vec()
}

// ---------------------------------------------------------------------------
// Reading
// ---------------------------------------------------------------------------

fn read_u16(b: &[u8], i: usize) -> (r: u16)
    requires
        i + 2 <= b.len(),
    ensures
        r == u16_at(b@, i as int),
{
    let s = vstd::slice::slice_subrange(b, i, i + 2);
    vstd::bytes::u16_from_le_bytes(s)
}

fn read_u32(b: &[u8], i: usize) -> (r: u32)
    requires
        i + 4 <= b.len(),
    ensures
        r == u32_at(b@, i as int),
{
    let s = vstd::slice::slice_subrange(b, i, i + 4);
    vstd::bytes::u32_from_le_bytes(s)
}

fn read_u64(b: &[u8], i: usize) -> (r: u64)
    requires
        i + 8 <= b.len(),
    ensures
        r == u64_at(b@, i as int),
{
    let s = vstd::slice::slice_subrange(b, i, i + 8);
    vstd::bytes::u64_from_le_bytes(s)
}

fn has_magic(b: &[u8]) -> (r: bool)
    requires
        b@.len() >= 8,
    ensures
        r == (b@.take(8) == magic()),
{
    let r = b[0] == 72 && b[1] == 65 && b[2] == 84 && b[3] == 72 && b[4] == 80 && b[5] == 67 && b[6]
        == 48 && b[7] == 49;
    proof {
        let t = b@.take(8);
        if r {
            assert(t =~= magic());
        } else if t == magic() {
            assert(t[0] == 72 && t[1] == 65 && t[2] == 84 && t[3] == 72 && t[4] == 80 && t[5] == 67
                && t[6] == 48 && t[7] == 49);
        }
    }
    r
}

/// The text of a range, where the bytes name one.
fn range_text(b: &[u8]) -> (r: Option<String>)
    ensures
        match r {
            Some(s) => is_range(b@) && s@ == ascii_text(b@),
            None => !is_range(b@),
        },
{
    let mut out = String::new();
    let mut i: usize = 0;
    while i < b.len()
        invariant
            i <= b.len(),
            forall|j: int| 0 <= j < i ==> is_range_byte(#[trigger] b@[j]),
            out@ == ascii_text(b@.take(i as int)),
        decreases b.len() - i,
    {
        let x = b[i];
        if !((x >= 48 && x <= 57) || (x >= 97 && x <= 102)) {
            assert(!is_range_byte(b@[i as int]));
            return None;
        }
        out.push(x as char);
        i += 1;
        assert(out@ =~= ascii_text(b@.take(i as int)));
    }
    assert(b@.take(i as int) =~= b@);
    Some(out)
}

proof fn lemma_ranges_err(b: Seq<u8>, k: nat, n: nat)
    requires
        k <= n,
        ranges(b, k) is Err,
    ensures
        ranges(b, n) == ranges(b, k),
    decreases n,
{
    if k < n {
        lemma_ranges_err(b, k, (n - 1) as nat);
    }
}

proof fn lemma_ranges_ok(b: Seq<u8>, n: nat)
    requires
        ranges(b, n) is Ok,
        b.len() >= 30,
    ensures
        ranges(b, n)->Ok_0.len() == n,
        crate::cache::ages::distinct(ranges(b, n)->Ok_0),
        b.len() >= range_at(n as int),
    decreases n,
{
    if n > 0 {
        lemma_ranges_ok(b, (n - 1) as nat);
        let p = ranges(b, (n - 1) as nat)->Ok_0;
        let q = ranges(b, n)->Ok_0;
        assert forall|i: int, j: int| 0 <= i < j < q.len() implies (#[trigger] q[i]).0 != (
        #[trigger] q[j]).0 by {
            assert(q[i] == p[i]);
            if j < p.len() {
                assert(p[i].0 != p[j].0);
            }
        }
    }
}

fn read_ranges(b: &[u8], n: u32) -> (r: Result<RangeAges, ProtocolError>)
    requires
        b@.len() >= 30,
        n <= MAX_STATIC_RANGES,
    ensures
        match r {
            Ok(a) => ranges(b@, n as nat) == Ok::<Seq<(Seq<char>, u64)>, ProtocolErrorView>(a.pairs())
                && a@ == crate::cache::ages::map_of(a.pairs()),
            Err(e) => ranges(b@, n as nat) == Err::<Seq<(Seq<char>, u64)>, ProtocolErrorView>(e@),
        },
{
    let mut ages = RangeAges::new();
    let mut i: u32 = 0;
    while i < n
        invariant
            i <= n <= MAX_STATIC_RANGES,
            b@.len() >= 30,
            ranges(b@, i as nat) == Ok::<Seq<(Seq<char>, u64)>, ProtocolErrorView>(ages.pairs()),
        decreases n - i,
    {
        let at: usize = 30 + 14 * (i as usize);
        let ghost next = (i + 1) as nat;
        proof {
            lemma_ranges_ok(b@, i as nat);
            if ranges(b@, next) is Err {
                lemma_ranges_err(b@, next, n as nat);
            }
        }
        if b.len() < at + 2 {
            return Err(ProtocolError::Io);
        }
        let length: u16 = read_u16(b, at);
        if length != 4 {
            return Err(
                ProtocolError::InvalidValue { field: Field::StaticRangeLength, value: length as u64 },
            );
        }
        if b.len() < at + 6 {
            return Err(ProtocolError::Io);
        }
        let name = vstd::slice::slice_subrange(b, at + 2, at + 6);
        let range = match range_text(name) {
            Some(s) => s,
            None => return Err(ProtocolError::InvalidRange(vstd::slice::slice_to_vec(name))),
        };
        if b.len() < at + 14 {
            return Err(ProtocolError::Io);
        }
        let age: u64 = read_u64(b, at + 6);
        let ghost before = ages.pairs();
        let _ = ages.entries();
        proof {
            crate::cache::ages::lemma_map_of(before);
        }
        let was = ages.insert(range.as_str(), age);
        if was.is_some() {
            proof {
                let k = range@;
                assert(crate::cache::ages::map_of(before).contains_key(k));
                let j = choose|j: int| 0 <= j < before.len() && (#[trigger] before[j]).0 == k;
                assert(is_listed(before, k));
            }
            return Err(ProtocolError::DuplicateRange(range));
        }
        proof {
            if is_listed(before, range@) {
                let j = choose|j: int| 0 <= j < before.len() && (#[trigger] before[j]).0 == range@;
                assert(crate::cache::ages::map_of(before).contains_pair(before[j].0, before[j].1));
            }
        }
        i += 1;
    }
    let _ = ages.entries();
    Ok(ages)
}

fn read_table(b: &[u8], at: usize) -> (r: Vec<u16>)
    requires
        at + 2 * LRU_CACHE_SIZE <= b.len(),
    ensures
        r@ == table(b@, at as int),
{
    let mut out: Vec<u16> = Vec::new();
    let mut i: usize = 0;
    while i < LRU_CACHE_SIZE
        invariant
            at + 2 * LRU_CACHE_SIZE <= b.len(),
            i <= LRU_CACHE_SIZE,
            out@.len() == i,
            forall|j: int| 0 <= j < i ==> out@[j] == u16_at(b@, at + 2 * j),
        decreases LRU_CACHE_SIZE - i,
    {
        out.push(read_u16(b, at + 2 * i));
        i += 1;
    }
    assert(out@ =~= table(b@, at as int));
    out
}

/// The part of a stream that its digest is taken of, where the stream has all of it.
pub fn digested_part(input: &[u8]) -> (r: Option<&[u8]>)
    ensures
        match r {
            Some(part) => input@.len() >= body_end(input@) && part@ == input@.take(body_end(input@)),
            None => input@.len() < 30 || input@.len() < body_end(input@) || u32_at(input@, 26)
                > MAX_STATIC_RANGES,
        },
{
    if input.len() < 30 {
        return None;
    }
    let range_count: u32 = read_u32(input, 26);
    if range_count > MAX_STATIC_RANGES {
        return None;
    }
    let end: usize = 30 + 14 * (range_count as usize) + 4 + 2 * LRU_CACHE_SIZE;
    if input.len() < end {
        return None;
    }
    let part = vstd::slice::slice_subrange(input, 0, end);
    assert(part@ =~= input@.take(end as int));
    Some(part)
}

/// Reads a stream.
pub fn read(input: &[u8]) -> (r: Result<LegacyCacheState, ProtocolError>)
    ensures
        match r {
            Ok(s) => read_result(input@) == Ok::<
                (StateView, Seq<(Seq<char>, u64)>),
                ProtocolErrorView,
            >((s@, s.static_range_ages.pairs())),
            Err(e) => read_result(input@) == Err::<
                (StateView, Seq<(Seq<char>, u64)>),
                ProtocolErrorView,
            >(e@),
        },
{
    match digested_part(input) {
        Some(part) => {
            let digest = sha256(part);
            read_checked(input, digest.as_slice())
        },
        None => read_checked(input, &[]),
    }
}

/// Reads a stream, given the digest of the part that its own digest is taken of.
pub fn read_checked(input: &[u8], digest: &[u8]) -> (r: Result<LegacyCacheState, ProtocolError>)
    ensures
        match r {
            Ok(s) => checked_result(input@, digest@) == Ok::<
                (StateView, Seq<(Seq<char>, u64)>),
                ProtocolErrorView,
            >((s@, s.static_range_ages.pairs())),
            Err(e) => checked_result(input@, digest@) == Err::<
                (StateView, Seq<(Seq<char>, u64)>),
                ProtocolErrorView,
            >(e@),
        },
{
    let b = input;
    if b.len() < 8 {
        return Err(ProtocolError::Io);
    }
    if !has_magic(b) {
        return Err(ProtocolError::Magic);
    }
    if b.len() < 10 {
        return Err(ProtocolError::Io);
    }
    let version: u16 = read_u16(b, 8);
    if version != VERSION {
        return Err(ProtocolError::Version(version));
    }
    if b.len() < 26 {
        return Err(ProtocolError::Io);
    }
    let cache_count: u32 = read_u32(b, 10);
    let cache_size: u64 = read_u64(b, 14);
    let pointer: u32 = read_u32(b, 22);
    if pointer as usize >= LRU_CACHE_SIZE {
        return Err(ProtocolError::InvalidValue { field: Field::LruClearPointer, value: pointer as u64 });
    }
    if b.len() < 30 {
        return Err(ProtocolError::Io);
    }
    let range_count: u32 = read_u32(b, 26);
    if range_count > MAX_STATIC_RANGES {
        return Err(
            ProtocolError::InvalidValue { field: Field::StaticRangeCount, value: range_count as u64 },
        );
    }
    let ages = match read_ranges(b, range_count) {
        Ok(a) => a,
        Err(e) => return Err(e),
    };
    proof {
        lemma_ranges_ok(b@, range_count as nat);
    }
    let at: usize = 30 + 14 * (range_count as usize);
    if b.len() < at + 4 {
        return Err(ProtocolError::Io);
    }
    let lru_length: u32 = read_u32(b, at);
    if lru_length as usize != LRU_CACHE_SIZE {
        return Err(ProtocolError::InvalidValue { field: Field::LruLength, value: lru_length as u64 });
    }
    let end: usize = at + 4 + 2 * LRU_CACHE_SIZE;
    if b.len() < end + 32 {
        return Err(ProtocolError::Io);
    }
    let lru_cache_table = read_table(b, at + 4);
    let actual = vstd::slice::slice_subrange(b, end, end + 32);
    if !crate::utils::bytes_equal(actual, digest) {
        return Err(ProtocolError::DigestMismatch);
    }
    if b.len() > end + 32 {
        return Err(ProtocolError::TrailingData);
    }
    Ok(
        LegacyCacheState {
            cache_count,
            cache_size,
            lru_clear_pointer: pointer as usize,
            static_range_ages: ages,
            lru_cache_table,
        },
    )
}

// ---------------------------------------------------------------------------
// Writing
// ---------------------------------------------------------------------------

/// An entry of the list as bytes; lengths are cut to two bytes.
pub open spec fn range_entry(range: Seq<char>, age: u64) -> Seq<u8> {
    vstd::bytes::spec_u16_to_le_bytes(vstd::utf8::encode_utf8(range).len() as u16)
        + vstd::utf8::encode_utf8(range) + vstd::bytes::spec_u64_to_le_bytes(age)
}

/// The entries of the list as bytes.
pub open spec fn range_entries(p: Seq<(Seq<char>, u64)>) -> Seq<u8>
    decreases p.len(),
{
    if p.len() == 0 {
        seq![]
    } else {
        range_entries(p.drop_last()) + range_entry(p.last().0, p.last().1)
    }
}

/// The stream up to its digest; lengths are cut to the bytes that they have.
pub open spec fn stream_body(
    count: u32,
    size: u64,
    pointer: usize,
    p: Seq<(Seq<char>, u64)>,
    t: Seq<u16>,
) -> Seq<u8> {
    magic() + vstd::bytes::spec_u16_to_le_bytes(VERSION) + vstd::bytes::spec_u32_to_le_bytes(count)
        + vstd::bytes::spec_u64_to_le_bytes(size) + vstd::bytes::spec_u32_to_le_bytes(pointer as u32)
        + vstd::bytes::spec_u32_to_le_bytes(p.len() as u32) + range_entries(p)
        + vstd::bytes::spec_u32_to_le_bytes(t.len() as u32) + crate::cache::persistent::table_bytes(t)
}

/// The whole stream.
pub open spec fn stream(
    count: u32,
    size: u64,
    pointer: usize,
    p: Seq<(Seq<char>, u64)>,
    t: Seq<u16>,
) -> Seq<u8> {
    let body = stream_body(count, size, pointer, p, t);
    body + sha256_digest(body)
}

/// A state as a stream. Reading the stream gives that state, with the ranges in their
/// order, wherever a stream can carry it.
pub fn encode_hpcache_v1_for_test(state: &LegacyCacheState) -> (r: Vec<u8>)
    ensures
        r@ == stream(
            state.cache_count,
            state.cache_size,
            state.lru_clear_pointer,
            state.static_range_ages.pairs(),
            state.lru_cache_table@,
        ),
        sha256_digest(
            stream_body(
                state.cache_count,
                state.cache_size,
                state.lru_clear_pointer,
                state.static_range_ages.pairs(),
                state.lru_cache_table@,
            ),
        ).len() == 32,
        r@.len() == 66 + range_entries(state.static_range_ages.pairs()).len() + 2
            * state.lru_cache_table@.len(),
        streamable(
            state.lru_clear_pointer,
            state.static_range_ages.pairs(),
            state.lru_cache_table@,
        ) ==> read_result(r@) == Ok::<(StateView, Seq<(Seq<char>, u64)>), ProtocolErrorView>(
            (state@, state.static_range_ages.pairs()),
        ),
{
    let mut out: Vec<u8> = Vec::new();
    out.push(72);
    out.push(65);
    out.push(84);
    out.push(72);
    out.push(80);
    out.push(67);
    out.push(48);
    out.push(49);
    assert(out@ =~= magic());
    crate::utils::push_all(&mut out, vstd::bytes::u16_to_le_bytes(VERSION).as_slice());
    crate::utils::push_all(&mut out, vstd::bytes::u32_to_le_bytes(state.cache_count).as_slice());
    crate::utils::push_all(&mut out, vstd::bytes::u64_to_le_bytes(state.cache_size).as_slice());
    crate::utils::push_all(
        &mut out,
        vstd::bytes::u32_to_le_bytes(
            #[verifier::truncate]
            (state.lru_clear_pointer as u32),
        ).as_slice(),
    );
    let entries = state.static_range_ages.entries();
    let ghost p = crate::cache::ages::pairs_of(entries@);
    crate::utils::push_all(
        &mut out,
        vstd::bytes::u32_to_le_bytes(
            #[verifier::truncate]
            (entries.len() as u32),
        ).as_slice(),
    );
    let ghost header = out@;
    let mut i: usize = 0;
    assert(p.take(0) =~= Seq::empty());
    assert(header + range_entries(p.take(0)) =~= header);
    while i < entries.len()
        invariant
            i <= entries.len(),
            p == crate::cache::ages::pairs_of(entries@),
            out@ == header + range_entries(p.take(i as int)),
        decreases entries.len() - i,
    {
        let bytes = entries[i].0.as_str().as_bytes();
        assert(p.take(i + 1).drop_last() =~= p.take(i as int));
        assert(p.take(i + 1).last() == p[i as int]);
        crate::utils::push_all(
            &mut out,
            vstd::bytes::u16_to_le_bytes(
                #[verifier::truncate]
                (bytes.len() as u16),
            ).as_slice(),
        );
        crate::utils::push_all(&mut out, bytes);
        crate::utils::push_all(&mut out, vstd::bytes::u64_to_le_bytes(entries[i].1).as_slice());
        i += 1;
        assert(out@ =~= header + range_entries(p.take(i as int)));
    }
    assert(p.take(i as int) =~= p);
    crate::utils::push_all(
        &mut out,
        vstd::bytes::u32_to_le_bytes(
            #[verifier::truncate]
            (state.lru_cache_table.len() as u32),
        ).as_slice(),
    );
    let ghost head = out@;
    let ghost t = state.lru_cache_table@;
    let mut j: usize = 0;
    assert(head + crate::cache::persistent::table_bytes(t.take(0)) =~= head);
    while j < state.lru_cache_table.len()
        invariant
            j <= state.lru_cache_table.len(),
            t == state.lru_cache_table@,
            out@ == head + crate::cache::persistent::table_bytes(t.take(j as int)),
        decreases state.lru_cache_table.len() - j,
    {
        assert(t.take(j + 1).drop_last() =~= t.take(j as int));
        crate::utils::push_all(&mut out, vstd::bytes::u16_to_le_bytes(state.lru_cache_table[j]).as_slice());
        j += 1;
        assert(out@ =~= head + crate::cache::persistent::table_bytes(t.take(j as int)));
    }
    assert(t.take(j as int) =~= t);
    assert(out@ =~= stream_body(
        state.cache_count,
        state.cache_size,
        state.lru_clear_pointer,
        state.static_range_ages.pairs(),
        state.lru_cache_table@,
    ));
    let digest = sha256(out.as_slice());
    crate::utils::push_all(&mut out, digest.as_slice());
    proof {
        vstd::bytes::lemma_auto_spec_u16_to_from_le_bytes();
        vstd::bytes::lemma_auto_spec_u32_to_from_le_bytes();
        vstd::bytes::lemma_auto_spec_u64_to_from_le_bytes();
        crate::cache::persistent::lemma_table_bytes(t);
        if streamable(state.lru_clear_pointer, p, t) {
            lemma_stream_is_read_back(
                state.cache_count,
                state.cache_size,
                state.lru_clear_pointer,
                p,
                t,
            );
        }
    }
    out
}

// ---------------------------------------------------------------------------
// Law: a stream is read as the state that it was written from
// ---------------------------------------------------------------------------

/// The text of a static range: four digits or letters from `a` to `f`.
pub open spec fn is_range_text(s: Seq<char>) -> bool {
    s.len() == 4 && forall|i: int| 0 <= i < 4 ==> crate::types::is_lower_hex(#[trigger] s[i])
}

/// What a stream can carry.
pub open spec fn streamable(pointer: usize, p: Seq<(Seq<char>, u64)>, t: Seq<u16>) -> bool {
    &&& pointer < LRU_CACHE_SIZE
    &&& p.len() <= MAX_STATIC_RANGES
    &&& crate::cache::ages::distinct(p)
    &&& forall|i: int| 0 <= i < p.len() ==> is_range_text((#[trigger] p[i]).0)
    &&& t.len() == LRU_CACHE_SIZE
}

proof fn lemma_range_entry(range: Seq<char>, age: u64)
    requires
        is_range_text(range),
    ensures
        ({
            let e = range_entry(range, age);
            &&& e.len() == 14
            &&& vstd::bytes::spec_u16_from_le_bytes(e.subrange(0, 2)) == 4
            &&& is_range(e.subrange(2, 6))
            &&& ascii_text(e.subrange(2, 6)) == range
            &&& vstd::bytes::spec_u64_from_le_bytes(e.subrange(6, 14)) == age
        }),
{
    vstd::bytes::lemma_auto_spec_u16_to_from_le_bytes();
    vstd::bytes::lemma_auto_spec_u64_to_from_le_bytes();
    let k = vstd::utf8::encode_utf8(range);
    assert(vstd::utf8::is_ascii_chars(range)) by {
        assert forall|i: int| 0 <= i < range.len() implies (#[trigger] range[i]) as int <= 0x7f by {
            assert(crate::types::is_lower_hex(range[i]));
        }
    }
    vstd::utf8::is_ascii_chars_encode_utf8(range);
    let e = range_entry(range, age);
    assert(e.subrange(0, 2) =~= vstd::bytes::spec_u16_to_le_bytes(4));
    assert(e.subrange(2, 6) =~= k);
    assert(e.subrange(6, 14) =~= vstd::bytes::spec_u64_to_le_bytes(age));
    assert forall|i: int| 0 <= i < 4 implies is_range_byte(#[trigger] k[i]) && k[i] as char == range[i] by {
        assert(crate::types::is_lower_hex(range[i]));
    }
    assert(ascii_text(k) =~= range);
}

proof fn lemma_range_entries(p: Seq<(Seq<char>, u64)>)
    requires
        forall|i: int| 0 <= i < p.len() ==> is_range_text((#[trigger] p[i]).0),
    ensures
        range_entries(p).len() == 14 * p.len(),
        forall|i: int|
            0 <= i < p.len() ==> #[trigger] range_entries(p).subrange(14 * i, 14 * i + 14) == range_entry(
                p[i].0,
                p[i].1,
            ),
    decreases p.len(),
{
    if p.len() > 0 {
        let q = p.drop_last();
        assert forall|i: int| 0 <= i < q.len() implies is_range_text((#[trigger] q[i]).0) by {
            assert(q[i] == p[i]);
        }
        lemma_range_entries(q);
        assert(is_range_text(p[p.len() - 1].0));
        lemma_range_entry(p.last().0, p.last().1);
        assert forall|i: int| 0 <= i < p.len() implies #[trigger] range_entries(p).subrange(
            14 * i,
            14 * i + 14,
        ) == range_entry(p[i].0, p[i].1) by {
            if i < q.len() {
                assert(range_entries(p).subrange(14 * i, 14 * i + 14) =~= range_entries(q).subrange(
                    14 * i,
                    14 * i + 14,
                ));
                assert(q[i] == p[i]);
            } else {
                assert(range_entries(p).subrange(14 * i, 14 * i + 14) =~= range_entry(p[i].0, p[i].1));
            }
        }
    }
}

proof fn lemma_read_ranges(b: Seq<u8>, p: Seq<(Seq<char>, u64)>, n: nat)
    requires
        n <= p.len(),
        crate::cache::ages::distinct(p),
        forall|i: int| 0 <= i < p.len() ==> is_range_text((#[trigger] p[i]).0),
        b.len() >= range_at(p.len() as int),
        b.subrange(30, range_at(p.len() as int)) == range_entries(p),
    ensures
        ranges(b, n) == Ok::<Seq<(Seq<char>, u64)>, ProtocolErrorView>(p.take(n as int)),
    decreases n,
{
    if n == 0 {
        assert(p.take(0) =~= Seq::empty());
    } else {
        lemma_read_ranges(b, p, (n - 1) as nat);
        lemma_range_entries(p);
        let i = n - 1;
        let at = range_at(i);
        let e = range_entry(p[i].0, p[i].1);
        assert(is_range_text(p[i].0));
        lemma_range_entry(p[i].0, p[i].1);
        assert(e == range_entries(p).subrange(14 * i, 14 * i + 14));
        assert(b.subrange(at, at + 14) =~= e);
        assert(b.subrange(at, at + 2) =~= e.subrange(0, 2));
        assert(b.subrange(at + 2, at + 6) =~= e.subrange(2, 6));
        assert(b.subrange(at + 6, at + 14) =~= e.subrange(6, 14));
        let before = p.take(n - 1);
        if is_listed(before, p[i].0) {
            let j = choose|j: int| 0 <= j < before.len() && (#[trigger] before[j]).0 == p[i].0;
            assert(p[j].0 != p[i].0);
        }
        assert(p.take(n as int) =~= before.push(p[i]));
    }
}

#[verifier::rlimit(40)]
proof fn lemma_stream_is_read_back(
    count: u32,
    size: u64,
    pointer: usize,
    p: Seq<(Seq<char>, u64)>,
    t: Seq<u16>,
)
    requires
        streamable(pointer, p, t),
        sha256_digest(stream_body(count, size, pointer, p, t)).len() == 32,
    ensures
        read_result(stream(count, size, pointer, p, t)) == Ok::<
            (StateView, Seq<(Seq<char>, u64)>),
            ProtocolErrorView,
        >(
            (
                StateView {
                    cache_count: count,
                    cache_size: size,
                    lru_clear_pointer: pointer,
                    static_range_ages: crate::cache::ages::map_of(p),
                    lru_cache_table: t,
                },
                p,
            ),
        ),
{
    vstd::bytes::lemma_auto_spec_u16_to_from_le_bytes();
    vstd::bytes::lemma_auto_spec_u32_to_from_le_bytes();
    vstd::bytes::lemma_auto_spec_u64_to_from_le_bytes();
    lemma_range_entries(p);
    crate::cache::persistent::lemma_table_bytes(t);
    let body = stream_body(count, size, pointer, p, t);
    let b = stream(count, size, pointer, p, t);
    let at = range_at(p.len() as int);
    let end = at + 4 + 2 * LRU_CACHE_SIZE;
    assert(body.len() == end);
    assert(b.take(8) =~= magic());
    assert(b.subrange(8, 10) =~= vstd::bytes::spec_u16_to_le_bytes(VERSION));
    assert(b.subrange(10, 14) =~= vstd::bytes::spec_u32_to_le_bytes(count));
    assert(b.subrange(14, 22) =~= vstd::bytes::spec_u64_to_le_bytes(size));
    assert(b.subrange(22, 26) =~= vstd::bytes::spec_u32_to_le_bytes(pointer as u32));
    assert(b.subrange(26, 30) =~= vstd::bytes::spec_u32_to_le_bytes(p.len() as u32));
    assert(b.subrange(30, at) =~= range_entries(p));
    assert(b.subrange(at, at + 4) =~= vstd::bytes::spec_u32_to_le_bytes(t.len() as u32));
    assert(b.subrange(at + 4, end) =~= crate::cache::persistent::table_bytes(t));
    lemma_read_ranges(b, p, p.len());
    assert(p.take(p.len() as int) =~= p);
    assert(b.take(end) =~= body);
    assert(b.subrange(end, end + 32) =~= sha256_digest(body));
    assert forall|i: int| 0 <= i < LRU_CACHE_SIZE implies u16_at(b, at + 4 + 2 * i) == t[i] by {
        assert(b.subrange(at + 4 + 2 * i, at + 4 + 2 * i + 2) =~= b.subrange(at + 4, end).subrange(
            2 * i,
            2 * i + 2,
        ));
    }
    assert(table(b, at + 4) =~= t);
}

// ---------------------------------------------------------------------------
// Law: an accepted stream is whole
// ---------------------------------------------------------------------------

proof fn lemma_ranges_agree(b: Seq<u8>, c: Seq<u8>, n: nat)
    requires
        ranges(b, n) is Ok,
        b.len() >= range_at(n as int),
        c.len() >= range_at(n as int),
        b.take(range_at(n as int)) == c.take(range_at(n as int)),
    ensures
        ranges(c, n) == ranges(b, n),
    decreases n,
{
    if n > 0 {
        let all = range_at(n as int);
        let at = range_at(n - 1);
        assert(b.take(at) =~= b.take(all).take(at));
        assert(c.take(at) =~= c.take(all).take(at));
        lemma_ranges_agree(b, c, (n - 1) as nat);
        assert(b.subrange(at, at + 2) =~= b.take(all).subrange(at, at + 2));
        assert(c.subrange(at, at + 2) =~= c.take(all).subrange(at, at + 2));
        assert(b.subrange(at + 2, at + 6) =~= b.take(all).subrange(at + 2, at + 6));
        assert(c.subrange(at + 2, at + 6) =~= c.take(all).subrange(at + 2, at + 6));
        assert(b.subrange(at + 6, at + 14) =~= b.take(all).subrange(at + 6, at + 14));
        assert(c.subrange(at + 6, at + 14) =~= c.take(all).subrange(at + 6, at + 14));
    }
}

proof fn lemma_ranges_cut(b: Seq<u8>, k: int, n: nat)
    requires
        ranges(b, n) is Ok,
        b.len() >= range_at(n as int),
        30 <= k < range_at(n as int),
    ensures
        ranges(b.take(k), n) == Err::<Seq<(Seq<char>, u64)>, ProtocolErrorView>(
            ProtocolErrorView::Io,
        ),
    decreases n,
{
    if n > 0 {
        let c = b.take(k);
        let at = range_at(n - 1);
        if k < at {
            lemma_ranges_cut(b, k, (n - 1) as nat);
        } else {
            assert(b.take(at) =~= c.take(at));
            lemma_ranges_agree(b, c, (n - 1) as nat);
            if k >= at + 2 {
                assert(c.subrange(at, at + 2) =~= b.subrange(at, at + 2));
            }
            if k >= at + 6 {
                assert(c.subrange(at + 2, at + 6) =~= b.subrange(at + 2, at + 6));
            }
        }
    }
}

/// Where the first bytes of two streams agree, so do the numbers in them.
proof fn lemma_header_agrees(b: Seq<u8>, c: Seq<u8>, n: int)
    requires
        0 <= n <= b.len(),
        n <= c.len(),
        b.take(n) == c.take(n),
    ensures
        n >= 8 ==> b.take(8) == c.take(8),
        forall|i: int| 0 <= i && i + 2 <= n ==> #[trigger] u16_at(b, i) == u16_at(c, i),
        forall|i: int| 0 <= i && i + 4 <= n ==> #[trigger] u32_at(b, i) == u32_at(c, i),
        forall|i: int| 0 <= i && i + 8 <= n ==> #[trigger] u64_at(b, i) == u64_at(c, i),
{
    assert forall|i: int, j: int| 0 <= i <= j <= n implies b.subrange(i, j) == #[trigger] c.subrange(
        i,
        j,
    ) by {
        assert(b.subrange(i, j) =~= b.take(n).subrange(i, j));
        assert(c.subrange(i, j) =~= c.take(n).subrange(i, j));
    }
    if n >= 8 {
        assert(b.take(8) =~= b.subrange(0, 8));
        assert(c.take(8) =~= c.subrange(0, 8));
    }
    assert forall|i: int| 0 <= i && i + 2 <= n implies #[trigger] u16_at(b, i) == u16_at(c, i) by {
        assert(b.subrange(i, i + 2) == c.subrange(i, i + 2));
    }
    assert forall|i: int| 0 <= i && i + 4 <= n implies #[trigger] u32_at(b, i) == u32_at(c, i) by {
        assert(b.subrange(i, i + 4) == c.subrange(i, i + 4));
    }
    assert forall|i: int| 0 <= i && i + 8 <= n implies #[trigger] u64_at(b, i) == u64_at(c, i) by {
        assert(b.subrange(i, i + 8) == c.subrange(i, i + 8));
    }
}

/// An accepted stream with bytes cut off at its end is refused: it ends too early.
pub proof fn cut_streams_are_refused(b: Seq<u8>, n: int)
    requires
        read_result(b) is Ok,
        0 <= n < b.len(),
    ensures
        read_result(b.take(n)) == Err::<(StateView, Seq<(Seq<char>, u64)>), ProtocolErrorView>(
            ProtocolErrorView::Io,
        ),
{
    let c = b.take(n);
    let count = u32_at(b, 26) as nat;
    let at = range_at(count as int);
    assert(c.take(n) =~= b.take(n));
    lemma_header_agrees(b, c, n);
    lemma_ranges_ok(b, count);
    if n >= 30 {
        if n < at {
            lemma_ranges_cut(b, n, count);
        } else {
            assert(c.take(at) =~= b.take(at));
            lemma_ranges_agree(b, c, count);
        }
    }
}

/// An accepted stream with bytes behind its end is refused for them.
pub proof fn longer_streams_are_refused(b: Seq<u8>, more: Seq<u8>)
    requires
        read_result(b) is Ok,
        more.len() > 0,
    ensures
        read_result(b + more) == Err::<(StateView, Seq<(Seq<char>, u64)>), ProtocolErrorView>(
            ProtocolErrorView::TrailingData,
        ),
{
    let c = b + more;
    let count = u32_at(b, 26) as nat;
    let at = range_at(count as int);
    let end = body_end(b);
    let n = b.len() as int;
    assert(c.take(n) =~= b.take(n));
    lemma_header_agrees(b, c, n);
    lemma_ranges_ok(b, count);
    assert(c.take(at) =~= b.take(at));
    lemma_ranges_agree(b, c, count);
    assert(c.take(end) =~= b.take(end));
    assert(c.subrange(end, end + 32) =~= b.subrange(end, end + 32));
}

/// An accepted stream that is altered within its last 32 bytes, and nowhere else, is refused:
/// its digest is another.
pub proof fn streams_with_another_digest_are_refused(b: Seq<u8>, c: Seq<u8>)
    requires
        read_result(b) is Ok,
        c.len() == b.len(),
        c.take(c.len() - 32) == b.take(b.len() - 32),
        c != b,
    ensures
        read_result(c) == Err::<(StateView, Seq<(Seq<char>, u64)>), ProtocolErrorView>(
            ProtocolErrorView::DigestMismatch,
        ),
{
    let count = u32_at(b, 26) as nat;
    let at = range_at(count as int);
    let end = body_end(b);
    lemma_ranges_ok(b, count);
    lemma_header_agrees(b, c, end);
    assert(c.take(at) =~= c.take(end).take(at));
    assert(b.take(at) =~= b.take(end).take(at));
    lemma_ranges_agree(b, c, count);
    if c.subrange(end, end + 32) == b.subrange(end, end + 32) {
        assert(c =~= c.take(end) + c.subrange(end, end + 32));
        assert(b =~= b.take(end) + b.subrange(end, end + 32));
    }
}

proof fn lemma_ranges_places(b: Seq<u8>, n: nat, i: int)
    requires
        ranges(b, n) is Ok,
        0 <= i < n,
        ranges(b, n)->Ok_0.len() == n,
        b.len() >= 30,
    ensures
        ({
            let at = 30 + 14 * i;
            let e = ranges(b, n)->Ok_0[i];
            &&& b.len() >= at + 14
            &&& vstd::bytes::spec_u16_from_le_bytes(b.subrange(at, at + 2)) == 4
            &&& e.0 == seq![b[at + 2] as char, b[at + 3] as char, b[at + 4] as char, b[at + 5] as char]
            &&& e.1 == vstd::bytes::spec_u64_from_le_bytes(b.subrange(at + 6, at + 14))
        }),
    decreases n,
{
    let p = ranges(b, (n - 1) as nat)->Ok_0;
    lemma_ranges_ok(b, (n - 1) as nat);
    let at = 30 + 14 * i;
    if i < n - 1 {
        lemma_ranges_places(b, (n - 1) as nat, i);
        assert(ranges(b, n)->Ok_0[i] == p[i]);
    } else {
        let name = b.subrange(at + 2, at + 6);
        assert(name[0] == b[at + 2] && name[1] == b[at + 3] && name[2] == b[at + 4] && name[3] == b[at + 5]);
        assert(ascii_text(name) =~= seq![
            b[at + 2] as char,
            b[at + 3] as char,
            b[at + 4] as char,
            b[at + 5] as char,
        ]);
        assert(ranges(b, n)->Ok_0[i] == (ascii_text(name), u64_at(b, at + 6)));
    }
}

/// Everything in an accepted stream has its place, numbers with their low byte first: the mark, the
/// version in two bytes, the count in four, the size in eight, the pointer in four, the number of
/// ranges in four, fourteen bytes for each range, the length of the table in four, two bytes for
/// each of its entries, and in the last 32 bytes the digest of all that stands before.
pub proof fn streams_have_fixed_places(b: Seq<u8>, i: int)
    requires
        read_result(b) is Ok,
    ensures
        ({
            let (state, pairs) = read_result(b)->Ok_0;
            let n = pairs.len() as int;
            let end = b.len() - 32;
            &&& b[0] == 'H' as u8 && b[1] == 'A' as u8 && b[2] == 'T' as u8 && b[3] == 'H' as u8
            &&& b[4] == 'P' as u8 && b[5] == 'C' as u8 && b[6] == '0' as u8 && b[7] == '1' as u8
            &&& vstd::bytes::spec_u16_from_le_bytes(b.subrange(8, 10)) == 1
            &&& state.cache_count == vstd::bytes::spec_u32_from_le_bytes(b.subrange(10, 14))
            &&& state.cache_size == vstd::bytes::spec_u64_from_le_bytes(b.subrange(14, 22))
            &&& state.lru_clear_pointer == vstd::bytes::spec_u32_from_le_bytes(b.subrange(22, 26))
            &&& state.lru_clear_pointer < 1_048_576
            &&& n == vstd::bytes::spec_u32_from_le_bytes(b.subrange(26, 30))
            &&& b.len() == 30 + 14 * n + 4 + 2_097_152 + 32
            &&& state.static_range_ages == crate::cache::ages::map_of(pairs)
            &&& 0 <= i < n ==> {
                let at = 30 + 14 * i;
                &&& pairs[i].0 == seq![
                    b[at + 2] as char,
                    b[at + 3] as char,
                    b[at + 4] as char,
                    b[at + 5] as char,
                ]
                &&& pairs[i].1 == vstd::bytes::spec_u64_from_le_bytes(b.subrange(at + 6, at + 14))
            }
            &&& state.lru_cache_table.len() == 1_048_576
            &&& 0 <= i < 1_048_576 ==> state.lru_cache_table[i] == vstd::bytes::spec_u16_from_le_bytes(
                b.subrange(34 + 14 * n + 2 * i, 36 + 14 * n + 2 * i),
            )
            &&& b.subrange(end, end + 32) == sha256_digest(b.take(end))
        }),
{
    let (state, pairs) = read_result(b)->Ok_0;
    let count = u32_at(b, 26) as nat;
    lemma_ranges_ok(b, count);
    assert(b.take(8)[0] == magic()[0] && b.take(8)[1] == magic()[1] && b.take(8)[2] == magic()[2] && b.take(
        8,
    )[3] == magic()[3]);
    assert(b.take(8)[4] == magic()[4] && b.take(8)[5] == magic()[5] && b.take(8)[6] == magic()[6] && b.take(
        8,
    )[7] == magic()[7]);
    if 0 <= i < count {
        lemma_ranges_places(b, count, i);
    }
}

/// A stream is refused by what is wrong with it first: another mark, another version, a pointer
/// behind the table, or too many ranges.
pub proof fn bad_heads_are_refused(b: Seq<u8>)
    requires
        b.len() >= 30,
    ensures
        ({
            let version = vstd::bytes::spec_u16_from_le_bytes(b.subrange(8, 10));
            let pointer = vstd::bytes::spec_u32_from_le_bytes(b.subrange(22, 26));
            let count = vstd::bytes::spec_u32_from_le_bytes(b.subrange(26, 30));
            let marked = b.take(8) == seq![72u8, 65u8, 84u8, 72u8, 80u8, 67u8, 48u8, 49u8];
            let r = read_result(b);
            &&& !marked ==> r is Err && r->Err_0 is Magic
            &&& marked && version != 1 ==> r is Err && r->Err_0 == ProtocolErrorView::Version(version)
            &&& marked && version == 1 && pointer >= 1_048_576 ==> r is Err && r->Err_0
                == ProtocolErrorView::InvalidValue(Field::LruClearPointer, pointer as u64)
            &&& marked && version == 1 && pointer < 1_048_576 && count > 65_536 ==> r is Err && r->Err_0
                == ProtocolErrorView::InvalidValue(Field::StaticRangeCount, count as u64)
        }),
{
}

} // verus!
