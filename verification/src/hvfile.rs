//! Cached files: their IDs, names and places.

use vstd::prelude::*;
use crate::types::{FileId, FileType, Sha1Hash};

verus! {

/// Whether a character outside ASCII is a decimal number of Unicode, as the class `\d`
/// of the `regex` crate has it.
pub uninterp spec fn in_digit_class(c: char) -> bool;

/// `regex::Regex::is_match` of `^\d$` on the text that is this one character: whether
/// it does is a function of the character.
#[verifier::external_body]
fn matches_digit_class(c: char) -> (r: bool)
    ensures
        r == in_digit_class(c),
{
    regex::Regex::new(r"^\d$").expect("valid pattern").is_match(c.to_string().as_str())
}

/// A decimal number of Unicode: within ASCII, one of the ten digits.
pub open spec fn is_decimal(c: char) -> bool {
    if (c as int) < 128 {
        crate::number::is_digit(c)
    } else {
        in_digit_class(c)
    }
}

/// One to `max` decimal numbers.
pub open spec fn is_number(s: Seq<char>, max: nat) -> bool {
    1 <= s.len() <= max && forall|i: int| 0 <= i < s.len() ==> is_decimal(#[trigger] s[i])
}

/// The extensions that a file ID can end in.
pub open spec fn is_known_ext(s: Seq<char>) -> bool {
    s == "jpg"@ || s == "png"@ || s == "gif"@ || s == "mp4"@ || s == "wbm"@ || s == "wbp"@ || s
        == "avf"@ || s == "jxl"@
}

/// A file ID: the hash, the size, the resolution where it is given, and the extension,
/// parted by hyphens.
pub open spec fn valid_fileid(s: Seq<char>) -> bool {
    let p = crate::text::split(s, '-');
    &&& p.len() == 3 || p.len() == 5
    &&& crate::types::is_sha1_text(p[0])
    &&& is_number(p[1], 10)
    &&& p.len() == 5 ==> is_number(p[2], 5) && is_number(p[3], 5)
    &&& is_known_ext(p.last())
}

/// A file as its ID describes it.
pub ghost struct HVFileView {
    pub hash: Seq<char>,
    pub size: u32,
    pub xres: u32,
    pub yres: u32,
    pub file_type: crate::types::FileTypeView,
}

/// The file that an ID describes. The numbers of a valid ID can be out of range or
/// written in digits that are not ASCII: then there is none.
pub open spec fn file_of(s: Seq<char>) -> Option<HVFileView> {
    let p = crate::text::split(s, '-');
    if !valid_fileid(s) {
        None
    } else if p.len() == 3 {
        match crate::number::parse_unsigned(p[1], u32::MAX as nat) {
            Some(size) => Some(
                HVFileView {
                    hash: p[0],
                    size: size as u32,
                    xres: 0,
                    yres: 0,
                    file_type: crate::types::type_of_ext(p[2]),
                },
            ),
            None => None,
        }
    } else {
        match (
            crate::number::parse_unsigned(p[1], u32::MAX as nat),
            crate::number::parse_unsigned(p[2], u32::MAX as nat),
            crate::number::parse_unsigned(p[3], u32::MAX as nat),
        ) {
            (Some(size), Some(x), Some(y)) => Some(
                HVFileView {
                    hash: p[0],
                    size: size as u32,
                    xres: x as u32,
                    yres: y as u32,
                    file_type: crate::types::type_of_ext(p[4]),
                },
            ),
            _ => None,
        }
    }
}

/// The ID of a file; the resolution stands in it where its width is not zero.
pub open spec fn fileid_of(v: HVFileView) -> Seq<char> {
    let ext = crate::types::ext_of(v.file_type);
    if v.xres > 0 {
        v.hash + "-"@ + crate::number::decimal(v.size as nat) + "-"@ + crate::number::decimal(
            v.xres as nat,
        ) + "-"@ + crate::number::decimal(v.yres as nat) + "-"@ + ext
    } else {
        v.hash + "-"@ + crate::number::decimal(v.size as nat) + "-"@ + ext
    }
}

/// Where a file lies below the cache directory: in a directory of the first two digits of its
/// hash, and below that in one of the next two.
pub open spec fn cached_at(v: HVFileView, cache_dir: Seq<char>) -> Seq<char> {
    crate::utils::joined(
        crate::utils::joined(crate::utils::joined(cache_dir, v.hash.subrange(0, 2)), v.hash.subrange(2, 4)),
        fileid_of(v),
    )
}

/// A file that an ID can describe in full: its hash is one, its type has an extension of
/// its own, and its resolution has at most five digits and a height only beside a width.
pub open spec fn describable(v: HVFileView) -> bool {
    &&& crate::types::is_sha1_text(v.hash)
    &&& !(v.file_type is Other)
    &&& v.xres <= 99_999
    &&& v.yres <= 99_999
    &&& v.xres == 0 ==> v.yres == 0
}

// ---------------------------------------------------------------------------
// Laws
// ---------------------------------------------------------------------------

proof fn lemma_ext(t: crate::types::FileTypeView)
    requires
        !(t is Other),
    ensures
        is_known_ext(crate::types::ext_of(t)),
        crate::types::type_of_ext(crate::types::ext_of(t)) == t,
        !crate::types::ext_of(t).contains('-'),
{
    reveal_strlit("jpg");
    reveal_strlit("jpeg");
    reveal_strlit("png");
    reveal_strlit("gif");
    reveal_strlit("mp4");
    reveal_strlit("wbm");
    reveal_strlit("webm");
    reveal_strlit("wbp");
    reveal_strlit("webp");
    reveal_strlit("avf");
    reveal_strlit("avif");
    reveal_strlit("jxl");
    assert("jpg"@[1] == 'p');
    assert("jxl"@[1] == 'x');
    assert("png"@[0] == 'p');
    assert("gif"@[0] == 'g');
    assert("mp4"@[0] == 'm');
    assert("wbm"@[2] == 'm');
    assert("wbp"@[2] == 'p');
    assert("avf"@[0] == 'a');
    assert("jpg"@[0] == 'j');
}

proof fn lemma_known_ext(s: Seq<char>)
    requires
        is_known_ext(s),
    ensures
        crate::types::ext_of(crate::types::type_of_ext(s)) == s,
        !(crate::types::type_of_ext(s) is Other),
        vstd::utf8::is_ascii_chars(s),
        crate::text::ascii_lower(s) == s,
{
    reveal_strlit("jpg");
    reveal_strlit("png");
    reveal_strlit("gif");
    reveal_strlit("mp4");
    reveal_strlit("wbm");
    reveal_strlit("wbp");
    reveal_strlit("avf");
    reveal_strlit("jxl");
    reveal_strlit("jpeg");
    reveal_strlit("webm");
    reveal_strlit("webp");
    reveal_strlit("avif");
    assert(crate::text::ascii_lower(s) =~= s);
}

proof fn lemma_decimal_number(n: nat, max: nat)
    requires
        n < vstd::arithmetic::power::pow(10, max),
        max > 0,
    ensures
        is_number(crate::number::decimal(n), max),
        !crate::number::decimal(n).contains('-'),
    decreases max,
{
    let s = crate::number::decimal(n);
    crate::number::lemma_decimal(n);
    assert forall|i: int| 0 <= i < s.len() implies is_decimal(#[trigger] s[i]) by {
        assert(crate::number::is_digit(s[i]));
    }
    if s.contains('-') {
        let i = choose|i: int| 0 <= i < s.len() && s[i] == '-';
        assert(crate::number::is_digit(s[i]));
    }
    if n >= 10 {
        reveal(vstd::arithmetic::power::pow);
        assert(max > 1) by {
            if max == 1 {
                reveal_with_fuel(vstd::arithmetic::power::pow, 2);
            }
        }
        assert(vstd::arithmetic::power::pow(10, max) == 10 * vstd::arithmetic::power::pow(
            10,
            (max - 1) as nat,
        ));
        lemma_decimal_number(n / 10, (max - 1) as nat);
    }
}

proof fn lemma_no_hyphen(hash: Seq<char>)
    requires
        crate::types::is_sha1_text(hash),
    ensures
        !hash.contains('-'),
{
    if hash.contains('-') {
        let i = choose|i: int| 0 <= i < hash.len() && hash[i] == '-';
        assert(crate::types::is_lower_hex(hash[i]));
    }
}

proof fn lemma_pow10()
    ensures
        vstd::arithmetic::power::pow(10, 5) == 100_000,
        vstd::arithmetic::power::pow(10, 10) == 10_000_000_000,
{
    reveal_with_fuel(vstd::arithmetic::power::pow, 11);
}

/// The ID of a file describes that file.
pub proof fn fileid_describes_its_file(v: HVFileView)
    requires
        describable(v),
    ensures
        valid_fileid(fileid_of(v)),
        file_of(fileid_of(v)) == Some(v),
{
    let ext = crate::types::ext_of(v.file_type);
    let size = crate::number::decimal(v.size as nat);
    let x = crate::number::decimal(v.xres as nat);
    let y = crate::number::decimal(v.yres as nat);
    lemma_ext(v.file_type);
    lemma_no_hyphen(v.hash);
    lemma_pow10();
    lemma_decimal_number(v.size as nat, 10);
    lemma_decimal_number(v.xres as nat, 5);
    lemma_decimal_number(v.yres as nat, 5);
    crate::number::lemma_parse_decimal(v.size as nat, u32::MAX as nat);
    crate::number::lemma_parse_decimal(v.xres as nat, u32::MAX as nat);
    crate::number::lemma_parse_decimal(v.yres as nat, u32::MAX as nat);
    if v.xres > 0 {
        lemma_five_pieces(v.hash, size, x, y, ext);
    } else {
        lemma_three_pieces(v.hash, size, ext);
    }
}

proof fn lemma_three_pieces(a: Seq<char>, b: Seq<char>, c: Seq<char>)
    requires
        !a.contains('-'),
        !b.contains('-'),
        !c.contains('-'),
    ensures
        crate::text::split(a + "-"@ + b + "-"@ + c, '-') == seq![a, b, c],
{
    reveal_strlit("-");
    assert("-"@ =~= seq!['-']);
    crate::text::lemma_split_single(c, '-');
    let t = b + seq!['-'] + c;
    crate::text::lemma_split_first(b, '-', c);
    crate::text::lemma_split_first(a, '-', t);
    assert(a + "-"@ + b + "-"@ + c =~= a + seq!['-'] + t);
    assert(seq![a] + (seq![b] + seq![c]) =~= seq![a, b, c]);
}

proof fn lemma_five_pieces(a: Seq<char>, b: Seq<char>, c: Seq<char>, d: Seq<char>, e: Seq<char>)
    requires
        !a.contains('-'),
        !b.contains('-'),
        !c.contains('-'),
        !d.contains('-'),
        !e.contains('-'),
    ensures
        crate::text::split(a + "-"@ + b + "-"@ + c + "-"@ + d + "-"@ + e, '-') == seq![a, b, c, d, e],
{
    lemma_three_pieces(c, d, e);
    reveal_strlit("-");
    assert("-"@ =~= seq!['-']);
    let u = c + "-"@ + d + "-"@ + e;
    let t = b + seq!['-'] + u;
    crate::text::lemma_split_first(b, '-', u);
    crate::text::lemma_split_first(a, '-', t);
    assert(a + "-"@ + b + "-"@ + c + "-"@ + d + "-"@ + e =~= a + seq!['-'] + t);
    assert(seq![a] + (seq![b] + seq![c, d, e]) =~= seq![a, b, c, d, e]);
}

/// A number written as this library writes it.
pub open spec fn is_canonical(s: Seq<char>) -> bool {
    s == crate::number::decimal(crate::number::digits_value(s))
}

/// An ID whose numbers have no leading zeros, and whose resolution has a width above
/// zero, is the ID of the file that it describes.
pub proof fn file_gives_its_fileid(s: Seq<char>)
    requires
        file_of(s) is Some,
        forall|i: int|
            1 <= i < crate::text::split(s, '-').len() - 1 ==> is_canonical(
                #[trigger] crate::text::split(s, '-')[i],
            ),
        crate::text::split(s, '-').len() == 5 ==> file_of(s)->0.xres > 0,
    ensures
        fileid_of(file_of(s)->0) == s,
        describable(file_of(s)->0),
{
    let p = crate::text::split(s, '-');
    let v = file_of(s)->0;
    lemma_known_ext(p.last());
    lemma_split_join(s);
    reveal_strlit("-");
    assert("-"@ =~= seq!['-']);
    assert(is_canonical(p[1]));
    lemma_plain_number(p[1], 10);
    if p.len() == 5 {
        assert(is_canonical(p[2]));
        assert(is_canonical(p[3]));
        lemma_plain_number(p[2], 5);
        lemma_plain_number(p[3], 5);
        assert(p =~= seq![p[0], p[1], p[2], p[3], p[4]]);
        reveal_with_fuel(hyphenated, 6);
        assert(p.drop_first().drop_first().drop_first().drop_first() =~= seq![p[4]]);
        assert(s =~= fileid_of(v));
    } else {
        assert(p =~= seq![p[0], p[1], p[2]]);
        reveal_with_fuel(hyphenated, 4);
        assert(p.drop_first().drop_first() =~= seq![p[2]]);
        assert(s =~= fileid_of(v));
    }
}

spec fn hyphenated(p: Seq<Seq<char>>) -> Seq<char>
    decreases p.len(),
{
    if p.len() == 0 {
        seq![]
    } else if p.len() == 1 {
        p[0]
    } else {
        p[0] + seq!['-'] + hyphenated(p.drop_first())
    }
}

proof fn lemma_split_join(s: Seq<char>)
    ensures
        hyphenated(crate::text::split(s, '-')) == s,
        crate::text::split(s, '-').len() > 0,
    decreases s.len(),
{
    crate::text::lemma_index_of(s, '-');
    let i = crate::text::index_of(s, '-');
    if i < s.len() {
        lemma_split_join(s.skip(i + 1));
        assert(crate::text::split(s, '-').drop_first() =~= crate::text::split(s.skip(i + 1), '-'));
        assert(s =~= s.take(i) + seq!['-'] + s.skip(i + 1));
    }
}

proof fn lemma_plain_number(s: Seq<char>, max: nat)
    requires
        is_number(s, max),
        max <= 10,
        crate::number::parse_unsigned(s, u32::MAX as nat) is Some,
    ensures
        crate::number::all_digits(s),
        crate::number::parse_unsigned(s, u32::MAX as nat) == Some(crate::number::digits_value(s)),
        max == 5 ==> crate::number::digits_value(s) <= 99_999,
{
    assert(is_decimal(s[0]));
    assert(crate::number::without_plus(s) == s);
    if max == 5 {
        lemma_digits_bound(s);
        vstd::arithmetic::power::lemma_pow_increases(10, s.len(), 5);
        lemma_pow10();
    }
}

proof fn lemma_digits_bound(s: Seq<char>)
    requires
        crate::number::all_digits(s),
    ensures
        crate::number::digits_value(s) < vstd::arithmetic::power::pow(10, s.len()),
    decreases s.len(),
{
    reveal(vstd::arithmetic::power::pow);
    if s.len() > 0 {
        let t = s.drop_last();
        assert forall|j: int| 0 <= j < t.len() implies crate::number::is_digit(#[trigger] t[j]) by {
            assert(crate::number::is_digit(s[j]));
        }
        lemma_digits_bound(t);
        assert(crate::number::is_digit(s[s.len() - 1]));
    }
}

/// Bytes fall between characters as far as all characters before them are ASCII.
proof fn lemma_ascii_boundary(s: Seq<char>, k: int)
    requires
        0 <= k <= s.len(),
        forall|i: int| 0 <= i < k ==> (#[trigger] s[i]) as u32 <= 0x7f,
    ensures
        vstd::utf8::is_char_boundary(vstd::utf8::encode_utf8(s), k),
        vstd::utf8::encode_utf8(s).len() >= k,
    decreases k,
{
    let bytes = vstd::utf8::encode_utf8(s);
    vstd::utf8::encode_utf8_valid_utf8(s);
    if k > 0 {
        vstd::utf8::encode_utf8_first_scalar(s);
        let rest = s.drop_first();
        assert(vstd::utf8::pop_first_scalar(bytes) =~= vstd::utf8::encode_utf8(rest));
        assert forall|i: int| 0 <= i < k - 1 implies (#[trigger] rest[i]) as u32 <= 0x7f by {
            assert(rest[i] == s[i + 1]);
        }
        lemma_ascii_boundary(rest, k - 1);
    }
}

/// The ID of a file with a hash is long enough to name a slot, and can be cut there.
pub proof fn fileid_names_a_slot(v: HVFileView)
    requires
        crate::types::is_sha1_text(v.hash),
    ensures
        crate::cache::lru::sliceable(vstd::utf8::encode_utf8(fileid_of(v))),
        vstd::utf8::encode_utf8(fileid_of(v)).len() >= 10,
{
    let s = fileid_of(v);
    assert forall|i: int| 0 <= i < 10 implies (#[trigger] s[i]) as u32 <= 0x7f by {
        assert(s[i] == v.hash[i]);
        assert(crate::types::is_lower_hex(v.hash[i]));
    }
    lemma_ascii_boundary(s, 4);
    lemma_ascii_boundary(s, 9);
    lemma_ascii_boundary(s, 10);
}

// ---------------------------------------------------------------------------
// Executable operations
// ---------------------------------------------------------------------------

#[derive(Debug)]
pub struct HVFile {
    pub hash: Sha1Hash,
    pub size: u32,
    pub xres: u32,
    pub yres: u32,
    pub file_type: FileType,
}

impl View for HVFile {
    type V = HVFileView;

    open spec fn view(&self) -> HVFileView {
        HVFileView {
            hash: self.hash@,
            size: self.size,
            xres: self.xres,
            yres: self.yres,
            file_type: self.file_type@,
        }
    }
}

impl Clone for HVFile {
    fn clone(&self) -> (r: Self)
        ensures
            r@ == self@,
    {
        HVFile {
            hash: self.hash.clone(),
            size: self.size,
            xres: self.xres,
            yres: self.yres,
            file_type: self.file_type.clone(),
        }
    }
}

fn char_is_decimal(c: char) -> (r: bool)
    ensures
        r == is_decimal(c),
{
    if (c as u32) < 128 {
        crate::number::char_is_digit(c)
    } else {
        matches_digit_class(c)
    }
}

fn check_number(s: &str, max: usize) -> (r: bool)
    ensures
        r == is_number(s@, max as nat),
{
    let cs = crate::text::to_chars(s);
    if cs.len() < 1 || cs.len() > max {
        return false;
    }
    let mut i: usize = 0;
    while i < cs.len()
        invariant
            cs@ == s@,
            i <= cs.len(),
            forall|j: int| 0 <= j < i ==> is_decimal(#[trigger] s@[j]),
        decreases cs.len() - i,
    {
        if !char_is_decimal(cs[i]) {
            assert(!is_decimal(s@[i as int]));
            return false;
        }
        i += 1;
    }
    true
}

fn check_hash(s: &str) -> (r: bool)
    ensures
        r == crate::types::is_sha1_text(s@),
{
    let cs = crate::text::to_chars(s);
    if cs.len() != 40 {
        return false;
    }
    let mut i: usize = 0;
    while i < cs.len()
        invariant
            cs@ == s@,
            i <= cs.len(),
            forall|j: int| 0 <= j < i ==> crate::types::is_lower_hex(#[trigger] s@[j]),
        decreases cs.len() - i,
    {
        if !crate::types::char_is_lower_hex(cs[i]) {
            assert(!crate::types::is_lower_hex(s@[i as int]));
            return false;
        }
        i += 1;
    }
    true
}

fn check_ext(s: &str) -> (r: bool)
    ensures
        r == is_known_ext(s@),
{
    crate::text::str_eq(s, "jpg") || crate::text::str_eq(s, "png") || crate::text::str_eq(s, "gif")
        || crate::text::str_eq(s, "mp4") || crate::text::str_eq(s, "wbm") || crate::text::str_eq(
        s,
        "wbp",
    ) || crate::text::str_eq(s, "avf") || crate::text::str_eq(s, "jxl")
}

impl HVFile {
    /// Whether `s` has the form of a file ID.
    pub fn is_valid_fileid(s: &str) -> (r: bool)
        ensures
            r == valid_fileid(s@),
    {
        let p = crate::text::split_on(s, '-');
        let ghost t = crate::text::texts(p@);
        if p.len() != 3 && p.len() != 5 {
            return false;
        }
        let n: usize = p.len();
        assert(t.last() == p@[n - 1]@);
        if !check_hash(p[0].as_str()) || !check_number(p[1].as_str(), 10) || !check_ext(
            p[n - 1].as_str(),
        ) {
            return false;
        }
        if n == 5 {
            check_number(p[2].as_str(), 5) && check_number(p[3].as_str(), 5)
        } else {
            true
        }
    }

    /// The file that an ID describes.
    pub fn from_fileid(fileid: &str) -> (r: Option<Self>)
        ensures
            match r {
                Some(f) => file_of(fileid@) == Some(f@),
                None => file_of(fileid@) is None,
            },
    {
        if !Self::is_valid_fileid(fileid) {
            return None;
        }
        let p = crate::text::split_on(fileid, '-');
        let ghost t = crate::text::texts(p@);
        let n: usize = p.len();
        assert(t.last() == p@[n - 1]@);
        proof {
            lemma_known_ext(t.last());
            assert forall|i: int| 0 <= i < 40 implies crate::types::is_hex(#[trigger] t[0][i]) by {
                assert(crate::types::is_lower_hex(t[0][i]));
            }
            assert forall|i: int| 0 <= i < 40 implies crate::text::ascii_lower_char(
                #[trigger] t[0][i],
            ) == t[0][i] by {
                assert(crate::types::is_lower_hex(t[0][i]));
            }
            assert(crate::text::ascii_lower(t[0]) =~= t[0]);
        }
        let hash = match Sha1Hash::new(p[0].as_str()) {
            Some(h) => h,
            None => return None,
        };
        let size: u32 = match crate::number::read_u32(p[1].as_str()) {
            Some(v) => v,
            None => return None,
        };
        let file_type = FileType::from_ext(p[n - 1].as_str());
        if n == 3 {
            Some(HVFile { hash, size, xres: 0, yres: 0, file_type })
        } else {
            let xres: u32 = match crate::number::read_u32(p[2].as_str()) {
                Some(v) => v,
                None => return None,
            };
            let yres: u32 = match crate::number::read_u32(p[3].as_str()) {
                Some(v) => v,
                None => return None,
            };
            Some(HVFile { hash, size, xres, yres, file_type })
        }
    }

    /// Build the full file ID string.
    pub fn fileid(&self) -> (r: FileId)
        ensures
            r@ == fileid_of(self@),
    {
        let mut out = String::from_str(self.hash.as_str());
        out.append("-");
        crate::number::push_decimal(&mut out, self.size as u64);
        if self.xres > 0 {
            out.append("-");
            crate::number::push_decimal(&mut out, self.xres as u64);
            out.append("-");
            crate::number::push_decimal(&mut out, self.yres as u64);
        }
        out.append("-");
        out.append(self.file_type.as_ext());
        FileId::new(out.as_str())
    }

    /// Where the file lies below the cache directory.
    pub fn cache_path(&self, cache_dir: &str) -> (r: String)
        ensures
            r@ == cached_at(self@, cache_dir@),
    {
        let l1 = crate::utils::join_path(cache_dir, self.hash.l1_dir().as_str());
        let l2 = crate::utils::join_path(l1.as_str(), self.hash.l2_dir().as_str());
        crate::utils::join_path(l2.as_str(), self.fileid().as_str())
    }

    /// Marks the file as accessed of late. Says whether it was not marked before.
    pub fn mark_in(&self, lru: &mut crate::cache::lru::LruState) -> (r: bool)
        requires
            old(lru).wf(),
        ensures
            final(lru).wf(),
            final(lru).lru_clear_pointer == old(lru).lru_clear_pointer,
            ({
                let id = vstd::utf8::encode_utf8(fileid_of(self@));
                &&& r == !crate::cache::lru::is_marked(old(lru).lru_cache_table@, id)
                &&& final(lru).lru_cache_table@ == crate::cache::lru::marked(
                    old(lru).lru_cache_table@,
                    id,
                )
            }),
    {
        let _ = self.hash.as_str();
        proof {
            fileid_names_a_slot(self@);
        }
        lru.mark_recently_accessed(self.fileid().as_str())
    }

    /// The static range that the file belongs to.
    pub fn static_range(&self) -> (r: String)
        ensures
            r@ == self.hash@.take(4),
    {
        String::from_str(self.hash.static_range().as_str())
    }

    pub fn mime_type(&self) -> (r: &str)
        ensures
            r@ == crate::types::mime_of(self.file_type@),
    {
        self.file_type.as_mime()
    }
}

} // verus!
