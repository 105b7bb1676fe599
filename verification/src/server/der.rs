//! The elements of DER data, as far as an archive is put into its usual form and looked over
//! before it is read.
//!
//! An element is an identifier, a length and contents. The contents of a constructed element
//! are elements again. Data are given up to the end of the element that is looked into, and
//! places count from the start of the data.

use vstd::prelude::*;

verus! {

/// A password is worked on at most this often. More would take a machine centuries.
pub const MAX_ITERATIONS: u64 = 0x1000_0000_0000_0000;

/// The identifier of a sequence.
pub const SEQUENCE: u8 = 0x30;

/// The identifier of contents that are wrapped once more.
pub const WRAPPED: u8 = 0xa0;

/// The identifier of plain bytes.
pub const BYTES: u8 = 4;

/// The element that names plain data.
pub const DATA_TYPE: [u8; 11] = [6, 9, 42, 134, 72, 134, 247, 13, 1, 7, 1];

/// The element that names encrypted data.
pub const ENCRYPTED_DATA_TYPE: [u8; 11] = [6, 9, 42, 134, 72, 134, 247, 13, 1, 7, 6];

/// The element that names encryption by SHA-1 and triple DES.
pub const TRIPLE_DES: [u8; 12] = [6, 10, 42, 134, 72, 134, 247, 13, 1, 12, 1, 3];

/// The element that names encryption by SHA-1 and RC2 with 40 bits.
pub const RC2_40: [u8; 12] = [6, 10, 42, 134, 72, 134, 247, 13, 1, 12, 1, 6];

/// The element that names a bag with an encrypted key.
pub const KEY_BAG: [u8; 13] = [6, 11, 42, 134, 72, 134, 247, 13, 1, 12, 10, 1, 2];

/// The element that names a bag with a certificate.
pub const CERTIFICATE_BAG: [u8; 13] = [6, 11, 42, 134, 72, 134, 247, 13, 1, 12, 10, 1, 3];

/// The element that names the attribute with a name to read.
pub const FRIENDLY_NAME: [u8; 11] = [6, 9, 42, 134, 72, 134, 247, 13, 1, 9, 20];

/// The element that names the attribute with the number of a key.
pub const LOCAL_KEY_ID: [u8; 11] = [6, 9, 42, 134, 72, 134, 247, 13, 1, 9, 21];

/// The element that names the digest SHA-1.
pub const SHA1: [u8; 7] = [6, 5, 43, 14, 3, 2, 26];

/// The element of the number nought.
pub const ZERO: [u8; 3] = [2, 1, 0];

/// The element of the version of archives.
pub const ARCHIVE_VERSION: [u8; 3] = [2, 1, 3];

/// The number that bytes write, the highest first.
pub open spec fn number(d: Seq<u8>) -> nat
    decreases d.len(),
{
    if d.len() == 0 {
        0
    } else {
        number(d.drop_last()) * 256 + d.last() as nat
    }
}

/// Where the rest of an identifier of several bytes ends.
pub open spec fn long_identifier_end(d: Seq<u8>, i: int) -> Option<int>
    decreases d.len() - i,
{
    if i < 0 || i >= d.len() {
        None
    } else if d[i] < 128 {
        Some(i + 1)
    } else {
        long_identifier_end(d, i + 1)
    }
}

/// Where the identifier at a place ends.
pub open spec fn identifier_end(d: Seq<u8>, i: int) -> Option<int> {
    if i < 0 || i >= d.len() {
        None
    } else if d[i] % 32 != 31 {
        Some(i + 1)
    } else {
        long_identifier_end(d, i + 1)
    }
}

/// Where the contents of the element at a place start, and how long they say they are: none
/// where identifier and length are not whole, the length is left open or written with more
/// bytes than it may, or it is no `usize`.
pub open spec fn head(d: Seq<u8>, i: int) -> Option<(int, int)> {
    match identifier_end(d, i) {
        None => None,
        Some(j) => if j >= d.len() || d[j] == 128 || d[j] == 255 {
            None
        } else if d[j] < 128 {
            Some((j + 1, d[j] as int))
        } else {
            let start = j + 1 + (d[j] - 128);
            if start > d.len() || !(128 <= number(d.subrange(j + 1, start)) <= usize::MAX) {
                None
            } else {
                Some((start, number(d.subrange(j + 1, start)) as int))
            }
        },
    }
}

/// Where the contents of the element at a place start, and where they end, if they are all
/// there.
pub open spec fn contents(d: Seq<u8>, i: int) -> Option<(int, int)> {
    match head(d, i) {
        None => None,
        Some((start, len)) => if start + len <= d.len() {
            Some((start, start + len))
        } else {
            None
        },
    }
}

/// Where the element at a place ends.
pub open spec fn behind(d: Seq<u8>, i: int) -> Option<int> {
    match contents(d, i) {
        Some((_, end)) => Some(end),
        None => None,
    }
}

/// The data up to the end of the element at a place, and where its contents start.
pub open spec fn opened(d: Seq<u8>, i: int) -> Option<(Seq<u8>, int)> {
    match contents(d, i) {
        Some((start, end)) => Some((d.take(end), start)),
        None => None,
    }
}

/// Whether the whole element at a place is a given one.
pub open spec fn is_element(d: Seq<u8>, i: int, element: Seq<u8>) -> bool {
    match contents(d, i) {
        Some((_, end)) => d.subrange(i, end) == element,
        None => false,
    }
}

proof fn lemma_long_identifier_end(d: Seq<u8>, i: int)
    ensures
        long_identifier_end(d, i) matches Some(j) ==> i < j <= d.len(),
    decreases d.len() - i,
{
    if 0 <= i < d.len() && d[i] >= 128 {
        lemma_long_identifier_end(d, i + 1);
    }
}

/// The contents of an element stand behind its place.
pub proof fn lemma_head(d: Seq<u8>, i: int)
    ensures
        head(d, i) matches Some((start, len)) ==> i < start <= d.len() && 0 <= len <= usize::MAX,
{
    if 0 <= i < d.len() {
        lemma_long_identifier_end(d, i + 1);
    }
}

proof fn lemma_number_grows(d: Seq<u8>, k: int)
    requires
        0 <= k <= d.len(),
    ensures
        number(d.take(k)) <= number(d),
    decreases d.len(),
{
    if k == d.len() {
        assert(d.take(k) =~= d);
    } else {
        lemma_number_grows(d.drop_last(), k);
        assert(d.drop_last().take(k) =~= d.take(k));
    }
}

/// The number that the bytes from a place up to another write, where it has 64 bits.
pub fn read_number(d: &[u8], from: usize, to: usize) -> (r: Option<u64>)
    requires
        from <= to <= d@.len(),
    ensures
        match r {
            Some(n) => number(d@.subrange(from as int, to as int)) == n,
            None => number(d@.subrange(from as int, to as int)) > u64::MAX,
        },
{
    let mut n: u64 = 0;
    let mut k: usize = from;
    let ghost all = d@.subrange(from as int, to as int);
    while k < to
        invariant
            from <= k <= to <= d@.len(),
            all == d@.subrange(from as int, to as int),
            number(all.take(k - from)) == n,
        decreases to - k,
    {
        proof {
            let next = all.take(k - from + 1);
            assert(next.drop_last() =~= all.take(k - from));
            assert(next.last() == d@[k as int]);
            assert(number(next) == n * 256 + d@[k as int]);
            lemma_number_grows(all, k - from + 1);
        }
        n = match n.checked_mul(256) {
            None => return None,
            Some(m) => match m.checked_add(d[k] as u64) {
                None => return None,
                Some(s) => s,
            },
        };
        k += 1;
    }
    assert(all.take(k - from) =~= all);
    Some(n)
}

fn find_identifier_end(d: &[u8], i: usize) -> (r: Option<usize>)
    ensures
        match r {
            Some(j) => identifier_end(d@, i as int) == Some(j as int) && i < j <= d@.len(),
            None => identifier_end(d@, i as int) is None,
        },
{
    if i >= d.len() {
        return None;
    }
    if d[i] % 32 != 31 {
        return Some(i + 1);
    }
    let mut k: usize = i + 1;
    while k < d.len() && d[k] >= 128
        invariant
            i < k <= d@.len(),
            long_identifier_end(d@, i + 1) == long_identifier_end(d@, k as int),
        decreases d@.len() - k,
    {
        k += 1;
    }
    if k < d.len() {
        Some(k + 1)
    } else {
        None
    }
}

/// Where the contents of the element at a place start, and how long they say they are.
pub fn read_head(d: &[u8], i: usize) -> (r: Option<(usize, usize)>)
    ensures
        match r {
            Some((start, len)) => head(d@, i as int) == Some((start as int, len as int)) && i < start
                <= d@.len(),
            None => head(d@, i as int) is None,
        },
{
    let j: usize = match find_identifier_end(d, i) {
        None => return None,
        Some(j) => j,
    };
    if j >= d.len() || d[j] == 128 || d[j] == 255 {
        return None;
    }
    if d[j] < 128 {
        return Some((j + 1, d[j] as usize));
    }
    let n: usize = (d[j] - 128) as usize;
    if n > d.len() - (j + 1) {
        return None;
    }
    let start: usize = j + 1 + n;
    match read_number(d, j + 1, start) {
        None => None,
        Some(len) => if len < 128 || len > usize::MAX as u64 {
            None
        } else {
            Some((start, len as usize))
        },
    }
}

/// Where the contents of the element at a place start, and where they end, if they are all
/// there.
pub fn find_contents(d: &[u8], i: usize) -> (r: Option<(usize, usize)>)
    ensures
        match r {
            Some((start, end)) => contents(d@, i as int) == Some((start as int, end as int)) && i
                < start <= end <= d@.len(),
            None => contents(d@, i as int) is None,
        },
{
    match read_head(d, i) {
        None => None,
        Some((start, len)) => if len <= d.len() - start {
            Some((start, start + len))
        } else {
            None
        },
    }
}

/// Where the element at a place ends.
pub fn find_behind(d: &[u8], i: usize) -> (r: Option<usize>)
    ensures
        match r {
            Some(end) => behind(d@, i as int) == Some(end as int) && i < end <= d@.len(),
            None => behind(d@, i as int) is None,
        },
{
    match find_contents(d, i) {
        Some((_, end)) => Some(end),
        None => None,
    }
}

fn open_at(d: &[u8], i: usize) -> (r: Option<(&[u8], usize)>)
    ensures
        match r {
            Some((inner, start)) => opened(d@, i as int) == Some((inner@, start as int)) && i < start
                <= inner@.len() <= d@.len(),
            None => opened(d@, i as int) is None,
        },
{
    match find_contents(d, i) {
        Some((start, end)) => {
            let inner = vstd::slice::slice_subrange(d, 0, end);
            assert(inner@ =~= d@.take(end as int));
            Some((inner, start))
        },
        None => None,
    }
}

fn has_element(d: &[u8], i: usize, element: &[u8]) -> (r: bool)
    ensures
        r == is_element(d@, i as int, element@),
{
    let end: usize = match find_contents(d, i) {
        None => return false,
        Some((_, end)) => end,
    };
    let ghost found = d@.subrange(i as int, end as int);
    if end - i != element.len() {
        assert(found.len() != element@.len());
        return false;
    }
    let mut k: usize = 0;
    while k < element.len()
        invariant
            k <= element@.len(),
            i + element@.len() == end <= d@.len(),
            found == d@.subrange(i as int, end as int),
            contents(d@, i as int) matches Some((_, e)) && e == end,
            forall|m: int| 0 <= m < k ==> found[m] == element@[m],
        decreases element@.len() - k,
    {
        if d[i + k] != element[k] {
            assert(found[k as int] != element@[k as int]);
            return false;
        }
        assert(found[k as int] == element@[k as int]);
        k += 1;
    }
    assert(found =~= element@);
    true
}

// ---------------------------------------------------------------------------
// What can be read
// ---------------------------------------------------------------------------

/// Whether an element that is passed over ends where a `usize` can tell.
pub open spec fn is_skippable(d: Seq<u8>, i: int) -> bool {
    match head(d, i) {
        None => true,
        Some((start, len)) => start + len <= usize::MAX,
    }
}

/// Whether the parameters of an encryption by password tell a count that a machine gets
/// through.
pub open spec fn is_feasible_count(d: Seq<u8>, i: int) -> bool {
    match opened(d, i) {
        None => true,
        Some((p, salt)) => match behind(p, salt) {
            None => true,
            Some(count) => match contents(p, count) {
                None => true,
                Some((start, end)) => number(p.subrange(start, end)) <= MAX_ITERATIONS,
            },
        },
    }
}

/// Whether an algorithm can be read and used.
pub open spec fn is_safe_algorithm(d: Seq<u8>, i: int) -> bool {
    match opened(d, i) {
        None => true,
        Some((a, name)) => match behind(a, name) {
            None => true,
            Some(parameters) => {
                ||| is_element(a, name, SHA1@)
                ||| if is_element(a, name, TRIPLE_DES@) || is_element(a, name, RC2_40@) {
                    is_feasible_count(a, parameters)
                } else {
                    is_skippable(a, parameters)
                }
            },
        },
    }
}

/// Whether encrypted data can be read and decrypted.
pub open spec fn is_safe_encrypted(d: Seq<u8>, i: int) -> bool {
    match opened(d, i) {
        None => true,
        Some((e, version)) => match behind(e, version) {
            None => true,
            Some(info) => match opened(e, info) {
                None => true,
                Some((c, kind)) => match behind(c, kind) {
                    None => true,
                    Some(algorithm) => is_safe_algorithm(c, algorithm),
                },
            },
        },
    }
}

/// Whether a content can be read and decrypted.
pub open spec fn is_safe_content(d: Seq<u8>, i: int) -> bool {
    match opened(d, i) {
        None => true,
        Some((c, name)) => match behind(c, name) {
            None => true,
            Some(wrapped) => {
                ||| is_element(c, name, DATA_TYPE@)
                ||| match opened(c, wrapped) {
                    None => true,
                    Some((x, inner)) => if is_element(c, name, ENCRYPTED_DATA_TYPE@) {
                        is_safe_encrypted(x, inner)
                    } else {
                        is_skippable(x, inner)
                    },
                }
            },
        },
    }
}

/// Whether an archive can be read: its content, and the algorithm of its check of integrity.
pub open spec fn is_safe_archive(d: Seq<u8>) -> bool {
    match opened(d, 0) {
        None => true,
        Some((a, version)) => match behind(a, version) {
            None => true,
            Some(content) => {
                &&& is_safe_content(a, content)
                &&& match behind(a, content) {
                    None => true,
                    Some(check) => match opened(a, check) {
                        None => true,
                        Some((m, digest)) => match opened(m, digest) {
                            None => true,
                            Some((g, algorithm)) => is_safe_algorithm(g, algorithm),
                        },
                    },
                }
            },
        },
    }
}

/// Whether the contents from a place on can be read and decrypted.
pub open spec fn are_safe_contents_from(d: Seq<u8>, i: int) -> bool
    decreases d.len() - i,
{
    proof {
        lemma_head(d, i);
    }
    match behind(d, i) {
        None => true,
        Some(end) => is_safe_content(d, i) && are_safe_contents_from(d, end),
    }
}

/// Whether a list of contents can be read and decrypted.
pub open spec fn are_safe_contents(d: Seq<u8>) -> bool {
    match opened(d, 0) {
        None => true,
        Some((c, first)) => are_safe_contents_from(c, first),
    }
}

/// Whether the values of an attribute from a place on can be passed over.
pub open spec fn are_safe_values_from(d: Seq<u8>, i: int) -> bool
    decreases d.len() - i,
{
    proof {
        lemma_head(d, i);
    }
    is_skippable(d, i) && match behind(d, i) {
        None => true,
        Some(end) => are_safe_values_from(d, end),
    }
}

/// Whether an attribute can be read.
pub open spec fn is_safe_attribute(d: Seq<u8>, i: int) -> bool {
    match opened(d, i) {
        None => true,
        Some((a, name)) => match behind(a, name) {
            None => true,
            Some(values) => {
                ||| is_element(a, name, FRIENDLY_NAME@)
                ||| is_element(a, name, LOCAL_KEY_ID@)
                ||| match opened(a, values) {
                    None => true,
                    Some((v, first)) => are_safe_values_from(v, first),
                }
            },
        },
    }
}

/// Whether the attributes from a place on can be read.
pub open spec fn are_safe_attributes_from(d: Seq<u8>, i: int) -> bool
    decreases d.len() - i,
{
    proof {
        lemma_head(d, i);
    }
    match behind(d, i) {
        None => true,
        Some(end) => is_safe_attribute(d, i) && are_safe_attributes_from(d, end),
    }
}

/// Whether what is in a bag can be read, and decrypted where it is a key.
pub open spec fn is_safe_value(b: Seq<u8>, name: int, value: int) -> bool {
    match opened(b, value) {
        None => true,
        Some((x, inner)) => {
            ||| is_element(b, name, CERTIFICATE_BAG@)
            ||| if is_element(b, name, KEY_BAG@) {
                match opened(x, inner) {
                    None => true,
                    Some((k, algorithm)) => is_safe_algorithm(k, algorithm),
                }
            } else {
                is_skippable(x, inner)
            }
        },
    }
}

/// Whether a bag can be read, and decrypted where it holds a key.
pub open spec fn is_safe_bag(d: Seq<u8>, i: int) -> bool {
    match opened(d, i) {
        None => true,
        Some((b, name)) => match behind(b, name) {
            None => true,
            Some(value) => {
                &&& is_safe_value(b, name, value)
                &&& match behind(b, value) {
                    None => true,
                    Some(attributes) => match opened(b, attributes) {
                        None => true,
                        Some((s, first)) => are_safe_attributes_from(s, first),
                    },
                }
            },
        },
    }
}

/// Whether the bags from a place on can be read.
pub open spec fn are_safe_bags_from(d: Seq<u8>, i: int) -> bool
    decreases d.len() - i,
{
    proof {
        lemma_head(d, i);
    }
    match behind(d, i) {
        None => true,
        Some(end) => is_safe_bag(d, i) && are_safe_bags_from(d, end),
    }
}

/// Whether a list of bags can be read.
pub open spec fn are_safe_bags(d: Seq<u8>) -> bool {
    match opened(d, 0) {
        None => true,
        Some((b, first)) => are_safe_bags_from(b, first),
    }
}

fn can_be_skipped(d: &[u8], i: usize) -> (r: bool)
    ensures
        r == is_skippable(d@, i as int),
{
    match read_head(d, i) {
        None => true,
        Some((start, len)) => len <= usize::MAX - start,
    }
}

fn count_is_feasible(d: &[u8], i: usize) -> (r: bool)
    ensures
        r == is_feasible_count(d@, i as int),
{
    let (p, salt) = match open_at(d, i) {
        None => return true,
        Some(x) => x,
    };
    let count: usize = match find_behind(p, salt) {
        None => return true,
        Some(end) => end,
    };
    match find_contents(p, count) {
        None => true,
        Some((start, end)) => match read_number(p, start, end) {
            None => false,
            Some(n) => n <= MAX_ITERATIONS,
        },
    }
}

fn check_algorithm(d: &[u8], i: usize) -> (r: bool)
    ensures
        r == is_safe_algorithm(d@, i as int),
{
    let (a, name) = match open_at(d, i) {
        None => return true,
        Some(x) => x,
    };
    let parameters: usize = match find_behind(a, name) {
        None => return true,
        Some(end) => end,
    };
    if has_element(a, name, &SHA1) {
        true
    } else if has_element(a, name, &TRIPLE_DES) || has_element(a, name, &RC2_40) {
        count_is_feasible(a, parameters)
    } else {
        can_be_skipped(a, parameters)
    }
}

fn check_encrypted(d: &[u8], i: usize) -> (r: bool)
    ensures
        r == is_safe_encrypted(d@, i as int),
{
    let (e, version) = match open_at(d, i) {
        None => return true,
        Some(x) => x,
    };
    let info: usize = match find_behind(e, version) {
        None => return true,
        Some(end) => end,
    };
    let (c, kind) = match open_at(e, info) {
        None => return true,
        Some(x) => x,
    };
    match find_behind(c, kind) {
        None => true,
        Some(algorithm) => check_algorithm(c, algorithm),
    }
}

/// Whether a content can be read and decrypted.
pub fn check_content(d: &[u8], i: usize) -> (r: bool)
    ensures
        r == is_safe_content(d@, i as int),
{
    let (c, name) = match open_at(d, i) {
        None => return true,
        Some(x) => x,
    };
    let wrapped: usize = match find_behind(c, name) {
        None => return true,
        Some(end) => end,
    };
    if has_element(c, name, &DATA_TYPE) {
        return true;
    }
    match open_at(c, wrapped) {
        None => true,
        Some((x, inner)) => if has_element(c, name, &ENCRYPTED_DATA_TYPE) {
            check_encrypted(x, inner)
        } else {
            can_be_skipped(x, inner)
        },
    }
}

/// Whether an archive can be read.
pub fn check_archive_elements(d: &[u8]) -> (r: bool)
    ensures
        r == is_safe_archive(d@),
{
    let (a, version) = match open_at(d, 0) {
        None => return true,
        Some(x) => x,
    };
    let content: usize = match find_behind(a, version) {
        None => return true,
        Some(end) => end,
    };
    if !check_content(a, content) {
        return false;
    }
    let check: usize = match find_behind(a, content) {
        None => return true,
        Some(end) => end,
    };
    match open_at(a, check) {
        None => true,
        Some((m, digest)) => match open_at(m, digest) {
            None => true,
            Some((g, algorithm)) => check_algorithm(g, algorithm),
        },
    }
}

/// Whether a list of contents can be read and decrypted.
pub fn check_contents(d: &[u8]) -> (r: bool)
    ensures
        r == are_safe_contents(d@),
{
    let (c, first) = match open_at(d, 0) {
        None => return true,
        Some(x) => x,
    };
    let mut i: usize = first;
    loop
        invariant
            are_safe_contents_from(c@, first as int) == are_safe_contents_from(c@, i as int),
            are_safe_contents(d@) == are_safe_contents_from(c@, first as int),
        decreases c@.len() - i,
    {
        let end: usize = match find_behind(c, i) {
            None => return true,
            Some(end) => end,
        };
        if !check_content(c, i) {
            return false;
        }
        i = end;
    }
}

fn check_values_from(d: &[u8], from: usize) -> (r: bool)
    ensures
        r == are_safe_values_from(d@, from as int),
{
    let mut i: usize = from;
    loop
        invariant
            are_safe_values_from(d@, from as int) == are_safe_values_from(d@, i as int),
        decreases d@.len() - i,
    {
        if !can_be_skipped(d, i) {
            return false;
        }
        i = match find_behind(d, i) {
            None => return true,
            Some(end) => end,
        };
    }
}

fn check_attribute(d: &[u8], i: usize) -> (r: bool)
    ensures
        r == is_safe_attribute(d@, i as int),
{
    let (a, name) = match open_at(d, i) {
        None => return true,
        Some(x) => x,
    };
    let values: usize = match find_behind(a, name) {
        None => return true,
        Some(end) => end,
    };
    if has_element(a, name, &FRIENDLY_NAME) || has_element(a, name, &LOCAL_KEY_ID) {
        return true;
    }
    match open_at(a, values) {
        None => true,
        Some((v, first)) => check_values_from(v, first),
    }
}

fn check_attributes_from(d: &[u8], from: usize) -> (r: bool)
    ensures
        r == are_safe_attributes_from(d@, from as int),
{
    let mut i: usize = from;
    loop
        invariant
            are_safe_attributes_from(d@, from as int) == are_safe_attributes_from(d@, i as int),
        decreases d@.len() - i,
    {
        let end: usize = match find_behind(d, i) {
            None => return true,
            Some(end) => end,
        };
        if !check_attribute(d, i) {
            return false;
        }
        i = end;
    }
}

fn check_value(b: &[u8], name: usize, value: usize) -> (r: bool)
    ensures
        r == is_safe_value(b@, name as int, value as int),
{
    let (x, inner) = match open_at(b, value) {
        None => return true,
        Some(x) => x,
    };
    if has_element(b, name, &CERTIFICATE_BAG) {
        true
    } else if has_element(b, name, &KEY_BAG) {
        match open_at(x, inner) {
            None => true,
            Some((k, algorithm)) => check_algorithm(k, algorithm),
        }
    } else {
        can_be_skipped(x, inner)
    }
}

fn check_bag(d: &[u8], i: usize) -> (r: bool)
    ensures
        r == is_safe_bag(d@, i as int),
{
    let (b, name) = match open_at(d, i) {
        None => return true,
        Some(x) => x,
    };
    let value: usize = match find_behind(b, name) {
        None => return true,
        Some(end) => end,
    };
    if !check_value(b, name, value) {
        return false;
    }
    let attributes: usize = match find_behind(b, value) {
        None => return true,
        Some(end) => end,
    };
    match open_at(b, attributes) {
        None => true,
        Some((s, first)) => check_attributes_from(s, first),
    }
}

/// Whether a list of bags can be read.
pub fn check_bags(d: &[u8]) -> (r: bool)
    ensures
        r == are_safe_bags(d@),
{
    let (b, first) = match open_at(d, 0) {
        None => return true,
        Some(x) => x,
    };
    let mut i: usize = first;
    loop
        invariant
            are_safe_bags_from(b@, first as int) == are_safe_bags_from(b@, i as int),
            are_safe_bags(d@) == are_safe_bags_from(b@, first as int),
        decreases b@.len() - i,
    {
        let end: usize = match find_behind(b, i) {
            None => return true,
            Some(end) => end,
        };
        if !check_bag(b, i) {
            return false;
        }
        i = end;
    }
}

// ---------------------------------------------------------------------------
// Usual forms
// ---------------------------------------------------------------------------
// The version and the type of encrypted data, and the name of the digest of a check of
// integrity, say nothing that is used. Where they are unusual, they are replaced by the usual
// ones, and the lengths around them are written anew.

/// Whether bytes are the element of a number of one byte.
pub open spec fn is_small_number(e: Seq<u8>) -> bool {
    ||| e.len() == 3 && e[0] == 2 && e[1] == 1 && e[2] < 128
    ||| e.len() == 4 && e[0] == 2 && e[1] == 2 && e[2] == 0 && e[3] >= 128
}

/// What is pending of the last number of a name behind some of its bytes: each number is written
/// in groups of seven bits without leading noughts, and has 64 bits at most.
pub open spec fn pending(b: Seq<u8>) -> Option<nat>
    decreases b.len(),
{
    if b.len() == 0 {
        Some(0)
    } else {
        match pending(b.drop_last()) {
            None => None,
            Some(v) => if b.last() == 128 || v * 128 > u64::MAX {
                None
            } else if b.last() < 128 {
                Some(0)
            } else {
                Some((v * 128 + (b.last() - 128)) as nat)
            },
        }
    }
}

/// Whether bytes begin with the element of a name and end with it.
pub open spec fn is_name(e: Seq<u8>) -> bool {
    match contents(e, 0) {
        None => false,
        Some((start, end)) => {
            &&& e[0] == 6
            &&& start < end == e.len()
            &&& e.last() < 128
            &&& pending(e.skip(start)) is Some
        },
    }
}

/// A number as bytes, the highest first.
pub open spec fn number_bytes(n: nat) -> Seq<u8>
    decreases n,
{
    if n < 256 {
        seq![n as u8]
    } else {
        number_bytes(n / 256).push((n % 256) as u8)
    }
}

/// How the length of contents is written.
pub open spec fn length_bytes(n: nat) -> Seq<u8> {
    if n < 128 {
        seq![n as u8]
    } else {
        seq![(128 + number_bytes(n).len()) as u8] + number_bytes(n)
    }
}

/// An element with an identifier of one byte.
pub open spec fn element(identifier: u8, body: Seq<u8>) -> Seq<u8> {
    seq![identifier] + length_bytes(body.len()) + body
}

/// The contents of the element that data begin with, and what stands behind it.
pub open spec fn body_of(x: Seq<u8>, identifier: u8) -> Option<(Seq<u8>, Seq<u8>)> {
    match contents(x, 0) {
        None => None,
        Some((start, end)) => if x[0] == identifier {
            Some((x.subrange(start, end), x.skip(end)))
        } else {
            None
        },
    }
}

/// What encrypted data hold beside their version, with the type of plain data.
pub open spec fn usual_info(b: Seq<u8>) -> Seq<u8> {
    match behind(b, 0) {
        None => b,
        Some(end) => if is_name(b.take(end)) {
            DATA_TYPE@ + b.skip(end)
        } else {
            b
        },
    }
}

/// What encrypted data hold, with the version nought.
pub open spec fn usual_encrypted(b: Seq<u8>) -> Seq<u8> {
    match behind(b, 0) {
        None => b,
        Some(end) => if is_small_number(b.take(end)) {
            ZERO@ + match body_of(b.skip(end), SEQUENCE) {
                None => b.skip(end),
                Some((info, rest)) => element(SEQUENCE, usual_info(info)) + rest,
            }
        } else {
            b
        },
    }
}

/// What a content holds behind its name, where it is encrypted.
pub open spec fn usual_wrapped(x: Seq<u8>) -> Seq<u8> {
    match body_of(x, WRAPPED) {
        None => x,
        Some((w, rest)) => match body_of(w, SEQUENCE) {
            None => x,
            Some((b, inner_rest)) => element(
                WRAPPED,
                element(SEQUENCE, usual_encrypted(b)) + inner_rest,
            ) + rest,
        },
    }
}

/// Data that begin with a content, with that content in its usual form.
pub open spec fn usual_content(x: Seq<u8>) -> Seq<u8> {
    match body_of(x, SEQUENCE) {
        None => x,
        Some((b, rest)) => match behind(b, 0) {
            None => x,
            Some(end) => if b.take(end) == ENCRYPTED_DATA_TYPE@ {
                element(SEQUENCE, b.take(end) + usual_wrapped(b.skip(end))) + rest
            } else {
                x
            },
        },
    }
}

/// An archive with its content in the usual form.
pub open spec fn usual_archive(d: Seq<u8>) -> Seq<u8> {
    match body_of(d, SEQUENCE) {
        None => d,
        Some((b, rest)) => match behind(b, 0) {
            None => d,
            Some(version) => element(SEQUENCE, b.take(version) + usual_content(b.skip(version))) + rest,
        },
    }
}

/// Contents in a row, each in its usual form.
pub open spec fn usual_list(b: Seq<u8>) -> Seq<u8>
    decreases b.len(),
{
    proof {
        lemma_head(b, 0);
    }
    match behind(b, 0) {
        None => b,
        Some(end) => usual_content(b.take(end)) + usual_list(b.skip(end)),
    }
}

/// A list of contents in their usual form.
pub open spec fn usual_contents(d: Seq<u8>) -> Seq<u8> {
    match body_of(d, SEQUENCE) {
        None => d,
        Some((b, rest)) => element(SEQUENCE, usual_list(b)) + rest,
    }
}

/// The digest of a check of integrity, by the name of SHA-1.
pub open spec fn usual_digest(g: Seq<u8>) -> Seq<u8> {
    match behind(g, 0) {
        None => g,
        Some(end) => if is_usual_digest(g) {
            g
        } else {
            element(SEQUENCE, SHA1@) + g.skip(end)
        },
    }
}

/// Data that begin with a check of integrity, with that check by the name of SHA-1.
pub open spec fn usual_mac(x: Seq<u8>) -> Seq<u8> {
    match body_of(x, SEQUENCE) {
        None => x,
        Some((m, rest)) => match body_of(m, SEQUENCE) {
            None => x,
            Some((g, inner_rest)) => element(SEQUENCE, element(SEQUENCE, usual_digest(g)) + inner_rest)
                + rest,
        },
    }
}

/// What stands behind the version of an archive, with its check of integrity, if it has one, by
/// the name of SHA-1.
pub open spec fn usual_checked(x: Seq<u8>) -> Seq<u8> {
    match behind(x, 0) {
        None => x,
        Some(check) => x.take(check) + usual_mac(x.skip(check)),
    }
}

/// An archive with its check of integrity, if it has one, by the name of SHA-1.
pub open spec fn usual_check(d: Seq<u8>) -> Seq<u8> {
    match body_of(d, SEQUENCE) {
        None => d,
        Some((b, rest)) => match behind(b, 0) {
            None => d,
            Some(version) => element(SEQUENCE, b.take(version) + usual_checked(b.skip(version))) + rest,
        },
    }
}

/// An archive with plain contents and no check of integrity.
pub open spec fn plain_archive(held: Seq<u8>) -> Seq<u8> {
    element(
        SEQUENCE,
        ARCHIVE_VERSION@ + element(
            SEQUENCE,
            DATA_TYPE@ + element(WRAPPED, element(BYTES, held)),
        ),
    )
}

/// The content of an archive: the second element in it.
pub open spec fn archive_content(d: Seq<u8>) -> Option<Seq<u8>> {
    match body_of(d, SEQUENCE) {
        None => None,
        Some((b, _)) => match behind(b, 0) {
            None => None,
            Some(version) => match behind(b, version) {
                None => None,
                Some(end) => Some(b.subrange(version, end)),
            },
        },
    }
}

/// Whether what encrypted data hold beside their version tells, as far as it tells a type, that
/// of plain data.
pub open spec fn is_usual_info(b: Seq<u8>) -> bool {
    match behind(b, 0) {
        None => true,
        Some(end) => is_name(b.take(end)) ==> b.take(end) == DATA_TYPE@,
    }
}

/// Whether what encrypted data hold tells, as far as it tells a version and a type, nought and
/// plain data.
pub open spec fn is_usual_encrypted(b: Seq<u8>) -> bool {
    match behind(b, 0) {
        None => true,
        Some(end) => is_small_number(b.take(end)) ==> {
            &&& b.take(end) == ZERO@
            &&& match body_of(b.skip(end), SEQUENCE) {
                None => true,
                Some((info, _)) => is_usual_info(info),
            }
        },
    }
}

/// Whether what a content holds behind its name is usual, where it is encrypted.
pub open spec fn is_usual_wrapped(x: Seq<u8>) -> bool {
    match body_of(x, WRAPPED) {
        None => true,
        Some((w, _)) => match body_of(w, SEQUENCE) {
            None => true,
            Some((b, _)) => is_usual_encrypted(b),
        },
    }
}

/// Whether the content that data begin with is usual: encrypted data in it are of the version
/// nought and of the type of plain data.
pub open spec fn is_usual_content(x: Seq<u8>) -> bool {
    match body_of(x, SEQUENCE) {
        None => true,
        Some((b, _)) => match behind(b, 0) {
            None => true,
            Some(end) => b.take(end) == ENCRYPTED_DATA_TYPE@ ==> is_usual_wrapped(b.skip(end)),
        },
    }
}

/// Whether the content of an archive is usual.
pub open spec fn is_usual_archive(d: Seq<u8>) -> bool {
    match body_of(d, SEQUENCE) {
        None => true,
        Some((b, _)) => match behind(b, 0) {
            None => true,
            Some(version) => is_usual_content(b.skip(version)),
        },
    }
}

/// Whether all contents in a row are usual.
pub open spec fn is_usual_list(b: Seq<u8>) -> bool
    decreases b.len(),
{
    proof {
        lemma_head(b, 0);
    }
    match behind(b, 0) {
        None => true,
        Some(end) => is_usual_content(b.take(end)) && is_usual_list(b.skip(end)),
    }
}

/// Whether all contents of a list are usual.
pub open spec fn are_usual_contents(d: Seq<u8>) -> bool {
    match body_of(d, SEQUENCE) {
        None => true,
        Some((b, _)) => is_usual_list(b),
    }
}

/// Whether a digest is by the name of SHA-1.
pub open spec fn is_usual_digest(g: Seq<u8>) -> bool {
    match body_of(g, SEQUENCE) {
        None => true,
        Some((n, _)) => match behind(n, 0) {
            None => true,
            Some(end) => n.take(end) == SHA1@,
        },
    }
}

/// Whether the check of integrity that data begin with, if it is one, is by the name of SHA-1.
pub open spec fn is_usual_mac(x: Seq<u8>) -> bool {
    match body_of(x, SEQUENCE) {
        None => true,
        Some((m, _)) => match body_of(m, SEQUENCE) {
            None => true,
            Some((g, _)) => is_usual_digest(g),
        },
    }
}

/// Whether the check of integrity of an archive, if it has one, is by the name of SHA-1.
pub open spec fn has_usual_check(d: Seq<u8>) -> bool {
    match body_of(d, SEQUENCE) {
        None => true,
        Some((b, _)) => match behind(b, 0) {
            None => true,
            Some(version) => match behind(b.skip(version), 0) {
                None => true,
                Some(check) => is_usual_mac(b.skip(version).skip(check)),
            },
        },
    }
}

fn has_small_number(e: &[u8]) -> (r: bool)
    ensures
        r == is_small_number(e@),
{
    (e.len() == 3 && e[0] == 2 && e[1] == 1 && e[2] < 128) || (e.len() == 4 && e[0] == 2 && e[1] == 2
        && e[2] == 0 && e[3] >= 128)
}

proof fn lemma_pending_none(b: Seq<u8>, k: int)
    requires
        0 <= k <= b.len(),
        pending(b.take(k)) is None,
    ensures
        pending(b) is None,
    decreases b.len(),
{
    if k == b.len() {
        assert(b.take(k) =~= b);
    } else {
        assert(b.drop_last().take(k) =~= b.take(k));
        lemma_pending_none(b.drop_last(), k);
    }
}

fn has_name(e: &[u8]) -> (r: bool)
    ensures
        r == is_name(e@),
{
    let (start, end): (usize, usize) = match find_contents(e, 0) {
        None => return false,
        Some(x) => x,
    };
    if e[0] != 6 || start >= end || end != e.len() || e[e.len() - 1] >= 128 {
        return false;
    }
    let ghost b = e@.skip(start as int);
    let mut v: u64 = 0;
    let mut k: usize = start;
    assert(b.take(0) =~= seq![]);
    while k < e.len()
        invariant
            0 < start <= k <= e@.len(),
            b == e@.skip(start as int),
            pending(b.take(k - start)) == Some(v as nat),
            contents(e@, 0) == Some((start as int, e@.len() as int)),
            start < e@.len(),
            e@[0] == 6,
            e@.last() < 128,
        decreases e@.len() - k,
    {
        proof {
            let next = b.take(k - start + 1);
            assert(next.drop_last() =~= b.take(k - start));
            assert(next.last() == e@[k as int]);
            if pending(next) is None {
                lemma_pending_none(b, k - start + 1);
            }
        }
        if e[k] == 128 || v > u64::MAX / 128 {
            return false;
        }
        v = if e[k] < 128 {
            0
        } else {
            v * 128 + (e[k] - 128) as u64
        };
        k += 1;
    }
    assert(b.take(k - start) =~= b);
    true
}

fn push_number_bytes(out: &mut Vec<u8>, n: usize)
    ensures
        final(out)@ == old(out)@ + number_bytes(n as nat),
    decreases n,
{
    let ghost before = out@;
    if n >= 256 {
        push_number_bytes(out, n / 256);
    }
    out.push((n % 256) as u8);
    assert(out@ =~= before + number_bytes(n as nat));
}

fn build(identifier: u8, body: &[u8]) -> (r: Vec<u8>)
    ensures
        r@ == element(identifier, body@),
{
    let mut r: Vec<u8> = Vec::new();
    r.push(identifier);
    let n: usize = body.len();
    if n < 128 {
        r.push(n as u8);
    } else {
        let mut digits: Vec<u8> = Vec::new();
        push_number_bytes(&mut digits, n);
        assert(digits@ =~= number_bytes(n as nat));
        proof {
            lemma_number_bytes_len(n as nat);
        }
        r.push(128 + digits.len() as u8);
        crate::utils::push_all(&mut r, digits.as_slice());
    }
    assert(r@ =~= seq![identifier] + length_bytes(n as nat));
    crate::utils::push_all(&mut r, body);
    r
}

fn joined(a: &[u8], b: &[u8]) -> (r: Vec<u8>)
    ensures
        r@ == a@ + b@,
{
    let mut r = vstd::slice::slice_to_vec(a);
    crate::utils::push_all(&mut r, b);
    r
}

fn split_at(x: &[u8], end: usize) -> (r: (&[u8], &[u8]))
    requires
        end <= x@.len(),
    ensures
        r.0@ == x@.take(end as int),
        r.1@ == x@.skip(end as int),
{
    let a = vstd::slice::slice_subrange(x, 0, end);
    let b = vstd::slice::slice_subrange(x, end, x.len());
    assert(a@ =~= x@.take(end as int));
    assert(b@ =~= x@.skip(end as int));
    (a, b)
}

pub(crate) fn split_body(x: &[u8], identifier: u8) -> (r: Option<(&[u8], &[u8])>)
    ensures
        match r {
            Some((body, rest)) => body_of(x@, identifier) == Some((body@, rest@)),
            None => body_of(x@, identifier) is None,
        },
{
    match find_contents(x, 0) {
        None => None,
        Some((start, end)) => if x[0] == identifier {
            let body = vstd::slice::slice_subrange(x, start, end);
            let (_, rest) = split_at(x, end);
            Some((body, rest))
        } else {
            None
        },
    }
}

fn make_usual_info(b: &[u8]) -> (r: Vec<u8>)
    ensures
        r@ == usual_info(b@),
{
    match find_behind(b, 0) {
        None => vstd::slice::slice_to_vec(b),
        Some(end) => {
            let (name, rest) = split_at(b, end);
            if has_name(name) {
                joined(&DATA_TYPE, rest)
            } else {
                vstd::slice::slice_to_vec(b)
            }
        },
    }
}

fn make_usual_encrypted(b: &[u8]) -> (r: Vec<u8>)
    ensures
        r@ == usual_encrypted(b@),
{
    let end: usize = match find_behind(b, 0) {
        None => return vstd::slice::slice_to_vec(b),
        Some(end) => end,
    };
    let (version, behind_version) = split_at(b, end);
    if !has_small_number(version) {
        return vstd::slice::slice_to_vec(b);
    }
    match split_body(behind_version, SEQUENCE) {
        None => joined(&ZERO, behind_version),
        Some((info, rest)) => {
            let usual = make_usual_info(info);
            let rebuilt = joined(build(SEQUENCE, usual.as_slice()).as_slice(), rest);
            joined(&ZERO, rebuilt.as_slice())
        },
    }
}

fn make_usual_wrapped(x: &[u8]) -> (r: Vec<u8>)
    ensures
        r@ == usual_wrapped(x@),
{
    match split_body(x, WRAPPED) {
        None => vstd::slice::slice_to_vec(x),
        Some((w, rest)) => match split_body(w, SEQUENCE) {
            None => vstd::slice::slice_to_vec(x),
            Some((b, inner_rest)) => {
                let usual = make_usual_encrypted(b);
                let inner = joined(build(SEQUENCE, usual.as_slice()).as_slice(), inner_rest);
                joined(build(WRAPPED, inner.as_slice()).as_slice(), rest)
            },
        },
    }
}

/// Data that begin with a content, with that content in its usual form.
pub fn make_usual_content(x: &[u8]) -> (r: Vec<u8>)
    ensures
        r@ == usual_content(x@),
{
    let (b, rest) = match split_body(x, SEQUENCE) {
        None => return vstd::slice::slice_to_vec(x),
        Some(parts) => parts,
    };
    let end: usize = match find_behind(b, 0) {
        None => return vstd::slice::slice_to_vec(x),
        Some(end) => end,
    };
    let (name, wrapped) = split_at(b, end);
    if !crate::utils::bytes_equal(name, &ENCRYPTED_DATA_TYPE) {
        return vstd::slice::slice_to_vec(x);
    }
    let usual = make_usual_wrapped(wrapped);
    let body = joined(name, usual.as_slice());
    joined(build(SEQUENCE, body.as_slice()).as_slice(), rest)
}

/// An archive with its content in the usual form.
pub fn make_usual_archive(d: &[u8]) -> (r: Vec<u8>)
    ensures
        r@ == usual_archive(d@),
{
    let (b, rest) = match split_body(d, SEQUENCE) {
        None => return vstd::slice::slice_to_vec(d),
        Some(parts) => parts,
    };
    let version: usize = match find_behind(b, 0) {
        None => return vstd::slice::slice_to_vec(d),
        Some(end) => end,
    };
    let (first, content) = split_at(b, version);
    let usual = make_usual_content(content);
    let body = joined(first, usual.as_slice());
    joined(build(SEQUENCE, body.as_slice()).as_slice(), rest)
}

/// A list of contents in their usual form.
pub fn make_usual_contents(d: &[u8]) -> (r: Vec<u8>)
    ensures
        r@ == usual_contents(d@),
{
    let (b, rest) = match split_body(d, SEQUENCE) {
        None => return vstd::slice::slice_to_vec(d),
        Some(parts) => parts,
    };
    let mut out: Vec<u8> = Vec::new();
    let mut left: &[u8] = b;
    assert(out@ + usual_list(b@) =~= usual_list(b@));
    loop
        invariant
            body_of(d@, SEQUENCE) == Some((b@, rest@)),
            out@ + usual_list(left@) == usual_list(b@),
        decreases left@.len(),
    {
        let end: usize = match find_behind(left, 0) {
            None => {
                crate::utils::push_all(&mut out, left);
                return joined(build(SEQUENCE, out.as_slice()).as_slice(), rest);
            },
            Some(end) => end,
        };
        let (part, next) = split_at(left, end);
        let usual = make_usual_content(part);
        let ghost before = out@;
        crate::utils::push_all(&mut out, usual.as_slice());
        assert(out@ + usual_list(next@) =~= before + usual_list(left@));
        left = next;
    }
}

fn check_usual_digest(g: &[u8]) -> (r: bool)
    ensures
        r == is_usual_digest(g@),
{
    match split_body(g, SEQUENCE) {
        None => true,
        Some((n, _)) => match find_behind(n, 0) {
            None => true,
            Some(end) => {
                let (name, _) = split_at(n, end);
                crate::utils::bytes_equal(name, &SHA1)
            },
        },
    }
}

fn make_usual_mac(x: &[u8]) -> (r: Vec<u8>)
    ensures
        r@ == usual_mac(x@),
{
    match split_body(x, SEQUENCE) {
        None => vstd::slice::slice_to_vec(x),
        Some((m, rest)) => match split_body(m, SEQUENCE) {
            None => vstd::slice::slice_to_vec(x),
            Some((g, inner_rest)) => {
                let usual = match find_behind(g, 0) {
                    None => vstd::slice::slice_to_vec(g),
                    Some(end) => if check_usual_digest(g) {
                        vstd::slice::slice_to_vec(g)
                    } else {
                        let (_, digest) = split_at(g, end);
                        joined(build(SEQUENCE, &SHA1).as_slice(), digest)
                    },
                };
                let inner = joined(build(SEQUENCE, usual.as_slice()).as_slice(), inner_rest);
                joined(build(SEQUENCE, inner.as_slice()).as_slice(), rest)
            },
        },
    }
}

/// An archive with its check of integrity, if it has one, by the name of SHA-1.
pub fn make_usual_check(d: &[u8]) -> (r: Vec<u8>)
    ensures
        r@ == usual_check(d@),
{
    let (b, rest) = match split_body(d, SEQUENCE) {
        None => return vstd::slice::slice_to_vec(d),
        Some(parts) => parts,
    };
    let version: usize = match find_behind(b, 0) {
        None => return vstd::slice::slice_to_vec(d),
        Some(end) => end,
    };
    let (first, x) = split_at(b, version);
    let checked = match find_behind(x, 0) {
        None => vstd::slice::slice_to_vec(x),
        Some(check) => {
            let (content, mac) = split_at(x, check);
            joined(content, make_usual_mac(mac).as_slice())
        },
    };
    let body = joined(first, checked.as_slice());
    joined(build(SEQUENCE, body.as_slice()).as_slice(), rest)
}

/// An archive with plain contents and no check of integrity.
pub fn make_plain_archive(held: &[u8]) -> (r: Vec<u8>)
    ensures
        r@ == plain_archive(held@),
{
    let bytes = build(BYTES, held);
    let wrapped = build(WRAPPED, bytes.as_slice());
    let content = build(SEQUENCE, joined(&DATA_TYPE, wrapped.as_slice()).as_slice());
    build(SEQUENCE, joined(&ARCHIVE_VERSION, content.as_slice()).as_slice())
}

/// The content of an archive.
pub fn content_of(d: &[u8]) -> (r: Option<Vec<u8>>)
    ensures
        match r {
            Some(c) => archive_content(d@) == Some(c@),
            None => archive_content(d@) is None,
        },
{
    let (b, _) = match split_body(d, SEQUENCE) {
        None => return None,
        Some(parts) => parts,
    };
    let version: usize = match find_behind(b, 0) {
        None => return None,
        Some(end) => end,
    };
    match find_behind(b, version) {
        None => None,
        Some(end) => Some(
            vstd::slice::slice_to_vec(vstd::slice::slice_subrange(b, version, end)),
        ),
    }
}

fn check_usual_info(b: &[u8]) -> (r: bool)
    ensures
        r == is_usual_info(b@),
{
    match find_behind(b, 0) {
        None => true,
        Some(end) => {
            let (name, _) = split_at(b, end);
            !has_name(name) || crate::utils::bytes_equal(name, &DATA_TYPE)
        },
    }
}

fn check_usual_encrypted(b: &[u8]) -> (r: bool)
    ensures
        r == is_usual_encrypted(b@),
{
    match find_behind(b, 0) {
        None => true,
        Some(end) => {
            let (version, behind_version) = split_at(b, end);
            !has_small_number(version) || (crate::utils::bytes_equal(version, &ZERO) && match split_body(
                behind_version,
                SEQUENCE,
            ) {
                None => true,
                Some((info, _)) => check_usual_info(info),
            })
        },
    }
}

/// Whether the content that data begin with is usual.
pub fn check_usual_content(x: &[u8]) -> (r: bool)
    ensures
        r == is_usual_content(x@),
{
    let (b, _) = match split_body(x, SEQUENCE) {
        None => return true,
        Some(parts) => parts,
    };
    let end: usize = match find_behind(b, 0) {
        None => return true,
        Some(end) => end,
    };
    let (name, wrapped) = split_at(b, end);
    if !crate::utils::bytes_equal(name, &ENCRYPTED_DATA_TYPE) {
        return true;
    }
    match split_body(wrapped, WRAPPED) {
        None => true,
        Some((w, _)) => match split_body(w, SEQUENCE) {
            None => true,
            Some((b, _)) => check_usual_encrypted(b),
        },
    }
}

/// Whether the content of an archive is usual.
pub fn check_usual_archive(d: &[u8]) -> (r: bool)
    ensures
        r == is_usual_archive(d@),
{
    let (b, _) = match split_body(d, SEQUENCE) {
        None => return true,
        Some(parts) => parts,
    };
    match find_behind(b, 0) {
        None => true,
        Some(version) => {
            let (_, x) = split_at(b, version);
            check_usual_content(x)
        },
    }
}

/// Whether all contents of a list are usual.
pub fn check_usual_contents(d: &[u8]) -> (r: bool)
    ensures
        r == are_usual_contents(d@),
{
    let (b, _) = match split_body(d, SEQUENCE) {
        None => return true,
        Some(parts) => parts,
    };
    let mut left: &[u8] = b;
    loop
        invariant
            are_usual_contents(d@) == is_usual_list(left@),
        decreases left@.len(),
    {
        let end: usize = match find_behind(left, 0) {
            None => return true,
            Some(end) => end,
        };
        let (part, next) = split_at(left, end);
        if !check_usual_content(part) {
            return false;
        }
        left = next;
    }
}

// ---------------------------------------------------------------------------
// Laws: what was put into the usual form is usual
// ---------------------------------------------------------------------------

/// Lengths take a few bytes.
proof fn lemma_number_bytes_len(n: nat)
    requires
        n <= usize::MAX,
    ensures
        1 <= number_bytes(n).len() <= 8,
{
    reveal_with_fuel(number_bytes, 9);
    assert(n < 0x1_0000_0000_0000_0000);
}

proof fn lemma_number_bytes(n: nat)
    ensures
        number(number_bytes(n)) == n,
    decreases n,
{
    let b = number_bytes(n);
    if n < 256 {
        assert(b.drop_last() =~= seq![]);
        assert(number(b.drop_last()) == 0);
    } else {
        lemma_number_bytes(n / 256);
        assert(b.drop_last() =~= number_bytes(n / 256));
    }
}

/// An element is read back as it was written.
pub proof fn element_is_read_back(identifier: u8, body: Seq<u8>, rest: Seq<u8>)
    requires
        identifier % 32 != 31,
        body.len() <= usize::MAX,
    ensures
        behind(element(identifier, body) + rest, 0) == Some(element(identifier, body).len() as int),
        body_of(element(identifier, body) + rest, identifier) == Some((body, rest)),
{
    let e = element(identifier, body);
    let x = e + rest;
    let n = body.len() as int;
    lemma_number_bytes_len(body.len());
    lemma_number_bytes(body.len());
    let k = number_bytes(body.len()).len() as int;
    assert(identifier_end(x, 0) == Some(1int));
    if n < 128 {
        assert(x[1] == n as u8);
        assert(head(x, 0) == Some((2int, n)));
        assert(x.subrange(2, 2 + n) =~= body);
        assert(x.skip(2 + n) =~= rest);
    } else {
        assert(x[1] == (128 + k) as u8);
        assert(x.subrange(2, 2 + k) =~= number_bytes(body.len()));
        assert(head(x, 0) == Some((2 + k, n)));
        assert(x.subrange(2 + k, 2 + k + n) =~= body);
        assert(x.skip(2 + k + n) =~= rest);
    }
}

proof fn lemma_long_identifier_local(x: Seq<u8>, y: Seq<u8>, i: int, e: int)
    requires
        0 <= i,
        long_identifier_end(x, i) is Some,
        long_identifier_end(x, i)->0 <= e <= x.len(),
        e <= y.len(),
        x.take(e) == y.take(e),
    ensures
        long_identifier_end(y, i) == long_identifier_end(x, i),
    decreases x.len() - i,
{
    lemma_long_identifier_end(x, i);
    assert(0 <= i < e);
    assert(x.take(e)[i] == x[i]);
    assert(y.take(e)[i] == y[i]);
    if x[i] >= 128 {
        lemma_long_identifier_local(x, y, i + 1, e);
    }
}

/// An element is read from its own bytes alone.
proof fn lemma_local(x: Seq<u8>, y: Seq<u8>)
    requires
        behind(x, 0) is Some,
        behind(x, 0)->0 <= y.len(),
        y.take(behind(x, 0)->0) == x.take(behind(x, 0)->0),
    ensures
        contents(y, 0) == contents(x, 0),
        behind(y, 0) == behind(x, 0),
        0 < behind(x, 0)->0 <= x.len(),
        forall|identifier: u8|
            body_of(x, identifier) is Some == #[trigger] body_of(y, identifier) is Some,
        forall|identifier: u8|
            body_of(x, identifier) matches Some((b, _)) ==> (#[trigger] body_of(y, identifier) matches Some(
                (c, _),
            ) && c == b),
{
    lemma_head(x, 0);
    let (start, e) = contents(x, 0)->0;
    let j = identifier_end(x, 0)->0;
    assert(x.take(e)[0] == y.take(e)[0]);
    if x[0] % 32 == 31 {
        lemma_long_identifier_end(x, 1);
        lemma_long_identifier_local(x, y, 1, e);
    }
    assert(identifier_end(y, 0) == Some(j));
    assert(x.take(e)[j] == y.take(e)[j]);
    assert(x.subrange(j + 1, start) =~= x.take(e).subrange(j + 1, start));
    assert(y.subrange(j + 1, start) =~= y.take(e).subrange(j + 1, start));
    assert(x.subrange(start, e) =~= x.take(e).subrange(start, e));
    assert(y.subrange(start, e) =~= y.take(e).subrange(start, e));
}

proof fn lemma_usual_names()
    ensures
        ZERO@.len() == 3,
        forall|y: Seq<u8>| #[trigger] behind(ZERO@ + y, 0) == Some(3int),
        forall|y: Seq<u8>| #[trigger] behind(DATA_TYPE@ + y, 0) == Some(11int),
        behind(SHA1@, 0) == Some(7int),
        SHA1@.len() == 7,
        DATA_TYPE@.len() == 11,
{
    assert(ZERO@ =~= seq![2u8, 1u8, 0u8]);
    assert(DATA_TYPE@.len() == 11 && DATA_TYPE@[0] == 6 && DATA_TYPE@[1] == 9);
    assert(SHA1@.len() == 7 && SHA1@[0] == 6 && SHA1@[1] == 5);
    assert forall|y: Seq<u8>| #[trigger] behind(ZERO@ + y, 0) == Some(3int) by {
        let x = ZERO@ + y;
        assert(x[0] == 2 && x[1] == 1);
        assert(head(x, 0) == Some((2int, 1int)));
    }
    assert forall|y: Seq<u8>| #[trigger] behind(DATA_TYPE@ + y, 0) == Some(11int) by {
        let x = DATA_TYPE@ + y;
        assert(x[0] == 6 && x[1] == 9);
        assert(head(x, 0) == Some((2int, 9int)));
    }
    assert(head(SHA1@, 0) == Some((2int, 5int)));
}

proof fn lemma_usual_info(b: Seq<u8>)
    ensures
        is_usual_info(usual_info(b)),
{
    lemma_usual_names();
    match behind(b, 0) {
        None => {},
        Some(end) => if is_name(b.take(end)) {
            assert((DATA_TYPE@ + b.skip(end)).take(11) =~= DATA_TYPE@);
        },
    }
}

proof fn lemma_usual_encrypted(b: Seq<u8>)
    requires
        usual_encrypted(b).len() <= usize::MAX,
    ensures
        is_usual_encrypted(usual_encrypted(b)),
{
    lemma_usual_names();
    match behind(b, 0) {
        None => {},
        Some(end) => if is_small_number(b.take(end)) {
            let u = usual_encrypted(b);
            let y = u.skip(3);
            assert(u.take(3) =~= ZERO@);
            match body_of(b.skip(end), SEQUENCE) {
                None => {
                    assert(y =~= b.skip(end));
                },
                Some((info, rest)) => {
                    assert(y =~= element(SEQUENCE, usual_info(info)) + rest);
                    element_is_read_back(SEQUENCE, usual_info(info), rest);
                    lemma_usual_info(info);
                },
            }
        },
    }
}

proof fn lemma_usual_wrapped(x: Seq<u8>)
    requires
        usual_wrapped(x).len() <= usize::MAX,
    ensures
        is_usual_wrapped(usual_wrapped(x)),
{
    match body_of(x, WRAPPED) {
        None => {},
        Some((w, rest)) => match body_of(w, SEQUENCE) {
            None => {},
            Some((b, inner_rest)) => {
                let inner = element(SEQUENCE, usual_encrypted(b)) + inner_rest;
                lemma_usual_encrypted(b);
                element_is_read_back(SEQUENCE, usual_encrypted(b), inner_rest);
                element_is_read_back(WRAPPED, inner, rest);
            },
        },
    }
}

/// A content in its usual form is usual.
pub proof fn usual_contents_are_usual(x: Seq<u8>)
    requires
        usual_content(x).len() <= usize::MAX,
    ensures
        is_usual_content(usual_content(x)),
{
    match body_of(x, SEQUENCE) {
        None => {},
        Some((b, rest)) => match behind(b, 0) {
            None => {},
            Some(end) => if b.take(end) == ENCRYPTED_DATA_TYPE@ {
                let inner = b.take(end) + usual_wrapped(b.skip(end));
                lemma_head(b, 0);
                element_is_read_back(SEQUENCE, inner, rest);
                assert(inner.take(end) =~= b.take(end));
                lemma_local(b, inner);
                assert(inner.skip(end) =~= usual_wrapped(b.skip(end)));
                lemma_usual_wrapped(b.skip(end));
            },
        },
    }
}

/// An archive in its usual form is usual.
pub proof fn usual_archives_are_usual(d: Seq<u8>)
    requires
        usual_archive(d).len() <= usize::MAX,
    ensures
        is_usual_archive(usual_archive(d)),
{
    match body_of(d, SEQUENCE) {
        None => {},
        Some((b, rest)) => match behind(b, 0) {
            None => {},
            Some(version) => {
                let inner = b.take(version) + usual_content(b.skip(version));
                lemma_head(b, 0);
                element_is_read_back(SEQUENCE, inner, rest);
                assert(inner.take(version) =~= b.take(version));
                lemma_local(b, inner);
                assert(inner.skip(version) =~= usual_content(b.skip(version)));
                usual_contents_are_usual(b.skip(version));
            },
        },
    }
}

/// A list of contents in their usual form is usual.
pub proof fn usual_lists_are_usual(b: Seq<u8>)
    requires
        usual_list(b).len() <= usize::MAX,
    ensures
        is_usual_list(usual_list(b)),
    decreases b.len(),
{
    lemma_head(b, 0);
    match behind(b, 0) {
        None => {},
        Some(end) => {
            let part = b.take(end);
            let x = usual_content(part);
            let y = usual_list(b.skip(end));
            assert(part.take(end) =~= b.take(end));
            lemma_local(b, part);
            usual_contents_are_usual(part);
            usual_lists_are_usual(b.skip(end));
            assert(behind(x, 0) == Some(x.len() as int)) by {
                match body_of(part, SEQUENCE) {
                    None => {},
                    Some((c, rest)) => match behind(c, 0) {
                        None => {},
                        Some(name) => if c.take(name) == ENCRYPTED_DATA_TYPE@ {
                            let inner = c.take(name) + usual_wrapped(c.skip(name));
                            assert(rest =~= seq![]);
                            assert(x =~= element(SEQUENCE, inner) + rest);
                            element_is_read_back(SEQUENCE, inner, rest);
                        },
                    },
                }
            }
            assert((x + y).take(x.len() as int) =~= x);
            assert(x.take(x.len() as int) =~= x);
            lemma_local(x, x + y);
            assert((x + y).skip(x.len() as int) =~= y);
        },
    }
}

proof fn lemma_usual_digest(g: Seq<u8>)
    requires
        usual_digest(g).len() <= usize::MAX,
    ensures
        is_usual_digest(usual_digest(g)),
{
    lemma_usual_names();
    match behind(g, 0) {
        None => {},
        Some(end) => {
            element_is_read_back(SEQUENCE, SHA1@, g.skip(end));
            assert(SHA1@.take(7) =~= SHA1@);
        },
    }
}

proof fn lemma_usual_mac(x: Seq<u8>)
    requires
        usual_mac(x).len() <= usize::MAX,
    ensures
        is_usual_mac(usual_mac(x)),
{
    match body_of(x, SEQUENCE) {
        None => {},
        Some((m, rest)) => match body_of(m, SEQUENCE) {
            None => {},
            Some((g, inner_rest)) => {
                let inner = element(SEQUENCE, usual_digest(g)) + inner_rest;
                lemma_usual_digest(g);
                element_is_read_back(SEQUENCE, usual_digest(g), inner_rest);
                element_is_read_back(SEQUENCE, inner, rest);
            },
        },
    }
}

/// A check of integrity in its usual form is usual, and leaves the content of the archive as it
/// is.
pub proof fn usual_checks_are_usual(d: Seq<u8>)
    requires
        usual_check(d).len() <= usize::MAX,
    ensures
        has_usual_check(usual_check(d)),
        is_usual_archive(d) ==> is_usual_archive(usual_check(d)),
{
    match body_of(d, SEQUENCE) {
        None => {},
        Some((b, rest)) => match behind(b, 0) {
            None => {},
            Some(version) => {
                let x = b.skip(version);
                let u = usual_checked(x);
                let inner = b.take(version) + u;
                lemma_head(b, 0);
                element_is_read_back(SEQUENCE, inner, rest);
                assert(inner.take(version) =~= b.take(version));
                lemma_local(b, inner);
                assert(inner.skip(version) =~= u);
                match behind(x, 0) {
                    None => {},
                    Some(check) => {
                        lemma_head(x, 0);
                        assert(u.take(check) =~= x.take(check));
                        lemma_local(x, u);
                        assert(u.skip(check) =~= usual_mac(x.skip(check)));
                        lemma_usual_mac(x.skip(check));
                        assert(body_of(u, SEQUENCE) is Some == body_of(x, SEQUENCE) is Some);
                    },
                }
            },
        },
    }
}

} // verus!
