//! Galleries: reading their metadata, naming their files, and the order of downloads.

use vstd::prelude::*;
use crate::config::Config;
use crate::error::{ErrorView, HathError};
use crate::rpc_client::{GalleryAck, GalleryQueueReply};
use crate::types::Sha1Hash;

verus! {

pub const MAX_GALLERY_FILES: usize = 10_000;

pub const MAX_GALLERY_ROUNDS: u32 = 10;

pub const MAX_REPORTED_FAILURES: usize = 50;

/// Pauses in seconds.
pub const SUCCESS_DELAY: u64 = 1;

pub const FAILURE_DELAY: u64 = 5;

pub const LOW_SPACE_DELAY: u64 = 300;

// ---------------------------------------------------------------------------
// The parts of a metadata document
// ---------------------------------------------------------------------------

/// A file of a gallery.
#[derive(Debug)]
pub struct GalleryFile {
    pub page: u32,
    pub fileindex: u32,
    pub xres: String,
    pub expected_sha1: Option<Sha1Hash>,
    pub filetype: String,
    pub filename: String,
}

/// A file with its texts as characters.
pub ghost struct FileView {
    pub page: u32,
    pub fileindex: u32,
    pub xres: Seq<char>,
    pub expected_sha1: Option<Seq<char>>,
    pub filetype: Seq<char>,
    pub filename: Seq<char>,
}

impl View for GalleryFile {
    type V = FileView;

    open spec fn view(&self) -> FileView {
        FileView {
            page: self.page,
            fileindex: self.fileindex,
            xres: self.xres@,
            expected_sha1: match self.expected_sha1 {
                Some(h) => Some(h@),
                None => None,
            },
            filetype: self.filetype@,
            filename: self.filename@,
        }
    }
}

#[derive(Debug)]
pub struct GalleryMetadata {
    pub gid: u32,
    pub minxres: String,
    pub title: String,
    pub information: String,
    pub files: Vec<GalleryFile>,
}

/// A gallery with its texts as characters.
pub ghost struct MetadataView {
    pub gid: u32,
    pub minxres: Seq<char>,
    pub title: Seq<char>,
    pub information: Seq<char>,
    pub files: Seq<FileView>,
}

/// The files of a vector.
pub open spec fn file_views(v: Seq<GalleryFile>) -> Seq<FileView> {
    Seq::new(v.len(), |i: int| v[i]@)
}

impl View for GalleryMetadata {
    type V = MetadataView;

    open spec fn view(&self) -> MetadataView {
        MetadataView {
            gid: self.gid,
            minxres: self.minxres@,
            title: self.title@,
            information: self.information@,
            files: file_views(self.files@),
        }
    }
}

/// The name of a file: its name and its type.
pub open spec fn rendered_name(f: FileView) -> Seq<char> {
    f.filename + "."@ + f.filetype
}

/// The number that a text writes, where it is above zero.
pub open spec fn positive(value: Seq<char>) -> Option<u32> {
    match crate::number::parse_unsigned(value, u32::MAX as nat) {
        Some(n) => if n > 0 {
            Some(n as u32)
        } else {
            None
        },
        None => None,
    }
}

/// A resolution: the original, or decimal digits.
pub open spec fn is_xres(value: Seq<char>) -> bool {
    value == "org"@ || (value.len() > 0 && crate::number::all_digits(value))
}

/// A file type: one to sixteen letters or digits.
pub open spec fn is_safe_filetype(value: Seq<char>) -> bool {
    0 < value.len() <= 16 && forall|i: int|
        0 <= i < value.len() ==> crate::types::is_alphanumeric(#[trigger] value[i])
}

/// The names that some systems keep for devices, in lower case.
pub open spec fn is_device_name(base: Seq<char>) -> bool {
    let b = crate::text::ascii_lower(base);
    ||| b == "con"@
    ||| b == "prn"@
    ||| b == "aux"@
    ||| b == "nul"@
    ||| b.len() == 4 && (b.take(3) == "com"@ || b.take(3) == "lpt"@) && '1' <= b[3] <= '9'
}

/// A character that cannot stand in the name of a file.
pub open spec fn is_unsafe_char(c: char) -> bool {
    c == '/' || c == '\\' || c == ':' || c == '\0'
}

/// A name that stays one file in its directory: not empty, without a dot or a blank at its
/// end, without separators, and not the name of a device.
pub open spec fn is_safe_component(value: Seq<char>) -> bool {
    &&& value.len() > 0
    &&& value.last() != '.'
    &&& value.last() != ' '
    &&& forall|i: int| 0 <= i < value.len() ==> !is_unsafe_char(#[trigger] value[i])
    &&& !is_device_name(value.take(crate::text::index_of(value, '.')))
}

/// A character that a title does not keep.
pub open spec fn is_dropped(c: char) -> bool {
    c == '*' || c == '"' || c == '\\' || c == '/' || c == '<' || c == '>' || c == ':' || c == '|' || c
        == '?'
}

/// A text without the characters that a title does not keep.
pub open spec fn without_dropped(s: Seq<char>) -> Seq<char>
    decreases s.len(),
{
    if s.len() == 0 {
        seq![]
    } else if is_dropped(s.last()) {
        without_dropped(s.drop_last())
    } else {
        without_dropped(s.drop_last()).push(s.last())
    }
}

/// A title: its words with one blank between them.
pub open spec fn sanitized_title(s: Seq<char>) -> Seq<char> {
    crate::text::join(crate::text::words(without_dropped(s)), " "@)
}

/// Whether no character is one that a title does not keep.
pub open spec fn keeps_all(s: Seq<char>) -> bool {
    forall|j: int| 0 <= j < s.len() ==> !is_dropped(#[trigger] s[j])
}

proof fn lemma_without_dropped(s: Seq<char>)
    ensures
        keeps_all(without_dropped(s)),
        keeps_all(s) ==> without_dropped(s) == s,
    decreases s.len(),
{
    if s.len() > 0 {
        lemma_without_dropped(s.drop_last());
        let front = without_dropped(s.drop_last());
        if !is_dropped(s.last()) {
            assert forall|j: int| 0 <= j < without_dropped(s).len() implies !is_dropped(
                #[trigger] without_dropped(s)[j],
            ) by {
                if j < front.len() {
                    assert(without_dropped(s)[j] == front[j]);
                }
            }
        }
        if keeps_all(s) {
            assert forall|j: int| 0 <= j < s.drop_last().len() implies !is_dropped(
                #[trigger] s.drop_last()[j],
            ) by {
                assert(s.drop_last()[j] == s[j]);
            }
            assert(s.drop_last().push(s.last()) =~= s);
        }
    }
}

/// A title that was sanitized holds none of the characters that a title does not keep, and
/// sanitizing it again changes nothing.
pub proof fn sanitized_titles_stay(s: Seq<char>)
    ensures
        keeps_all(sanitized_title(s)),
        sanitized_title(sanitized_title(s)) == sanitized_title(s),
{
    let kept = without_dropped(s);
    let ws = crate::text::words(kept);
    let t = sanitized_title(s);
    lemma_without_dropped(s);
    crate::text::lemma_words_are_words(kept);
    reveal_strlit(" ");
    let clean = |c: char| !is_dropped(c);
    assert forall|i: int, j: int| 0 <= i < ws.len() && 0 <= j < ws[i].len() implies clean(
        #[trigger] ws[i][j],
    ) by {
        assert(crate::text::drawn_from(ws[i], kept));
        assert(kept.contains(ws[i][j]));
        let k = kept.index_of(ws[i][j]);
        assert(!is_dropped(kept[k]));
    }
    crate::text::lemma_join_chars(ws, " "@, clean);
    assert forall|j: int| 0 <= j < t.len() implies !is_dropped(#[trigger] t[j]) by {
        assert(clean(t[j]));
    }
    lemma_without_dropped(t);
    crate::text::lemma_words_of_joined(ws);
}

/// The nine characters that a title does not keep leave no trace, and every other character
/// of a title without white space stays in its place.
pub proof fn titles_lose_nine_characters(a: Seq<char>, c: char, b: Seq<char>)
    ensures
        c == '*' || c == '"' || c == '\\' || c == '/' || c == '<' || c == '>' || c == ':' || c == '|' || c
            == '?' ==> sanitized_title(a + seq![c] + b) == sanitized_title(a + b),
{
    if is_dropped(c) {
        lemma_dropped_in_sum(a + seq![c], b);
        lemma_dropped_in_sum(a, seq![c]);
        lemma_dropped_in_sum(a, b);
        assert(seq![c].drop_last() =~= Seq::<char>::empty());
        assert(without_dropped(seq![c].drop_last()) =~= Seq::<char>::empty());
        assert(without_dropped(seq![c]) =~= Seq::<char>::empty());
        assert(without_dropped(a) + without_dropped(seq![c]) =~= without_dropped(a));
    }
}

proof fn lemma_dropped_in_sum(a: Seq<char>, b: Seq<char>)
    ensures
        without_dropped(a + b) == without_dropped(a) + without_dropped(b),
    decreases b.len(),
{
    if b.len() == 0 {
        assert(a + b =~= a);
        assert(without_dropped(a) + without_dropped(b) =~= without_dropped(a));
    } else {
        lemma_dropped_in_sum(a, b.drop_last());
        assert((a + b).drop_last() =~= a + b.drop_last());
        assert((a + b).last() == b.last());
        let x = without_dropped(a);
        let y = without_dropped(b.drop_last());
        assert((x + y).push(b.last()) =~= x + y.push(b.last()));
    }
}

/// A title of words with one blank between each two, without any of the nine characters, is
/// kept as it is.
pub proof fn clean_titles_stay(ws: Seq<Seq<char>>)
    requires
        forall|i: int| 0 <= i < ws.len() ==> crate::text::is_word(#[trigger] ws[i]),
        forall|i: int, j: int|
            0 <= i < ws.len() && 0 <= j < ws[i].len() ==> {
                let c = #[trigger] ws[i][j];
                c != '*' && c != '"' && c != '\\' && c != '/' && c != '<' && c != '>' && c != ':' && c != '|'
                    && c != '?'
            },
    ensures
        sanitized_title(crate::text::join(ws, " "@)) == crate::text::join(ws, " "@),
{
    reveal_strlit(" ");
    let clean = |c: char| !is_dropped(c);
    let t = crate::text::join(ws, " "@);
    assert forall|i: int, j: int| 0 <= i < ws.len() && 0 <= j < ws[i].len() implies clean(
        #[trigger] ws[i][j],
    ) by {
        let c = ws[i][j];
        assert(c != '*');
    }
    crate::text::lemma_join_chars(ws, " "@, clean);
    assert forall|j: int| 0 <= j < t.len() implies !is_dropped(#[trigger] t[j]) by {
        assert(clean(t[j]));
    }
    lemma_without_dropped(t);
    crate::text::lemma_words_of_joined(ws);
}

/// A name with a separator, a colon or a nought character in it, one that ends in a dot or a
/// blank, and one that is empty are not safe.
pub proof fn names_that_leave_their_directory_are_unsafe(name: Seq<char>, j: int)
    requires
        name.len() == 0 || name.last() == '.' || name.last() == ' ' || (0 <= j < name.len() && (name[j]
            == '/' || name[j] == '\\' || name[j] == ':' || name[j] == '\0')),
    ensures
        !is_safe_component(name),
{
    if name.len() > 0 && name.last() != '.' && name.last() != ' ' {
        assert(is_unsafe_char(name[j]));
    }
}

/// The name of a device, alone or with a dot and anything behind it, is not safe.
pub proof fn device_names_are_unsafe(name: Seq<char>, device: Seq<char>, rest: Seq<char>)
    requires
        ({
            ||| device == seq!['c', 'o', 'n']
            ||| device == seq!['p', 'r', 'n']
            ||| device == seq!['a', 'u', 'x']
            ||| device == seq!['n', 'u', 'l']
            ||| exists|d: char| '1' <= d <= '9' && device == #[trigger] seq!['c', 'o', 'm', d]
            ||| exists|d: char| '1' <= d <= '9' && device == #[trigger] seq!['l', 'p', 't', d]
        }),
        name == device || name == device + seq!['.'] + rest,
    ensures
        !is_safe_component(name),
{
    let i = crate::text::index_of(name, '.');
    assert forall|j: int| 0 <= j < device.len() implies name[j] != '.' by {
        assert(name[j] == device[j]);
    }
    crate::text::lemma_index_is(name, '.', device.len() as int);
    let base = name.take(i);
    assert(base =~= device);
    assert(crate::text::ascii_lower(device) =~= device);
    reveal_strlit("con");
    reveal_strlit("prn");
    reveal_strlit("aux");
    reveal_strlit("nul");
    reveal_strlit("com");
    reveal_strlit("lpt");
    if device.len() == 3 {
        assert(device =~= "con"@ || device =~= "prn"@ || device =~= "aux"@ || device =~= "nul"@);
    } else {
        assert(device.take(3) =~= "com"@ || device.take(3) =~= "lpt"@);
    }
    assert(is_device_name(base));
}

/// A name of five or more letters and digits, alone or with a dot and letters and digits behind
/// it, is safe.
pub proof fn plain_names_are_safe(stem: Seq<char>, rest: Seq<char>)
    requires
        stem.len() >= 5,
        is_plain(stem),
        rest.len() > 0,
        is_plain(rest),
    ensures
        is_safe_component(stem),
        is_safe_component(stem + seq!['.'] + rest),
{
    let name = stem + seq!['.'] + rest;
    reveal_strlit("con");
    reveal_strlit("prn");
    reveal_strlit("aux");
    reveal_strlit("nul");
    assert forall|j: int| 0 <= j < stem.len() implies stem[j] != '.' by {}
    crate::text::lemma_index_is(stem, '.', stem.len() as int);
    crate::text::lemma_index_is(name, '.', stem.len() as int);
    assert(stem.take(stem.len() as int) =~= stem);
    assert(name.take(stem.len() as int) =~= stem);
    assert(crate::text::ascii_lower(stem).len() == stem.len());
    assert(!is_device_name(stem));
    assert(stem[stem.len() - 1] == stem.last());
    assert(rest[rest.len() - 1] == rest.last());
    assert(name.last() == rest.last());
    assert forall|j: int| 0 <= j < name.len() implies !is_unsafe_char(#[trigger] name[j]) by {
        if j > stem.len() {
            assert(name[j] == rest[j - stem.len() - 1]);
        } else if j < stem.len() {
            assert(name[j] == stem[j]);
        }
    }
}

/// The first field of a text, and what stands behind it: white space has to end it.
pub open spec fn next_field(s: Seq<char>) -> Option<(Seq<char>, Seq<char>)> {
    let r = crate::text::trim_start(s);
    let i = crate::text::space_at(r);
    if i < r.len() {
        Some((r.take(i), r.skip(i)))
    } else {
        None
    }
}

/// The first `n` fields of a text, and what stands behind them.
pub open spec fn fields(s: Seq<char>, n: nat) -> Option<(Seq<Seq<char>>, Seq<char>)>
    decreases n,
{
    if n == 0 {
        Some((seq![], s))
    } else {
        match fields(s, (n - 1) as nat) {
            Some((f, rest)) => match next_field(rest) {
                Some((field, rest)) => Some((f.push(field), rest)),
                None => None,
            },
            None => None,
        }
    }
}

/// The file that a line describes: page, index, resolution, hash, type, and the name, which
/// is the rest of the line.
pub open spec fn file_of_line(line: Seq<char>) -> Result<FileView, ErrorView> {
    match fields(line, 5) {
        None => Err(ErrorView::Parse("truncated gallery file entry"@)),
        Some((f, rest)) => {
            let name = crate::text::trim_start(rest);
            if positive(f[0]) is None {
                Err(ErrorView::Parse("invalid "@ + "page"@))
            } else if positive(f[1]) is None {
                Err(ErrorView::Parse("invalid "@ + "fileindex"@))
            } else if !is_xres(f[2]) || !is_safe_component(name) || !is_safe_filetype(f[4]) {
                Err(ErrorView::Parse("unsafe gallery file entry"@))
            } else if f[3] != "unknown"@ && !is_sha1_hex(f[3]) {
                Err(ErrorView::Parse("invalid gallery SHA-1"@))
            } else {
                Ok(
                    FileView {
                        page: positive(f[0])->0,
                        fileindex: positive(f[1])->0,
                        xres: f[2],
                        expected_sha1: if f[3] == "unknown"@ {
                            None
                        } else {
                            Some(crate::text::ascii_lower(f[3]))
                        },
                        filetype: f[4],
                        filename: name,
                    },
                )
            }
        },
    }
}

/// Forty hexadecimal digits of either case.
pub open spec fn is_sha1_hex(s: Seq<char>) -> bool {
    s.len() == 40 && forall|i: int| 0 <= i < 40 ==> crate::types::is_hex(#[trigger] s[i])
}

// ---------------------------------------------------------------------------
// Law: a line reads back as it was written
// ---------------------------------------------------------------------------

/// White space between two fields.
pub open spec fn is_gap(g: Seq<char>) -> bool {
    g.len() > 0 && forall|j: int| 0 <= j < g.len() ==> crate::text::is_space(#[trigger] g[j])
}

proof fn lemma_next_field(gap: Seq<char>, w: Seq<char>, rest: Seq<char>)
    requires
        gap.len() == 0 || is_gap(gap),
        crate::text::is_word(w),
        rest.len() > 0,
        crate::text::is_space(rest[0]),
    ensures
        next_field(gap + w + rest) == Some((w, rest)),
{
    let t = w + rest;
    assert(gap + w + rest =~= gap + t);
    assert(t[0] == w[0]);
    crate::text::lemma_trim_gap(gap, t);
    crate::text::lemma_space_behind(w, rest);
    assert(t.take(w.len() as int) =~= w);
    assert(t.skip(w.len() as int) =~= rest);
}

proof fn lemma_five_fields(g: Seq<Seq<char>>, w: Seq<Seq<char>>, rest: Seq<char>)
    requires
        g.len() == 5,
        w.len() == 5,
        g[0].len() == 0 || is_gap(g[0]),
        forall|i: int| 1 <= i < 5 ==> is_gap(#[trigger] g[i]),
        forall|i: int| 0 <= i < 5 ==> crate::text::is_word(#[trigger] w[i]),
        rest.len() > 0,
        crate::text::is_space(rest[0]),
    ensures
        fields(
            g[0] + w[0] + g[1] + w[1] + g[2] + w[2] + g[3] + w[3] + g[4] + w[4] + rest,
            5,
        ) == Some((w, rest)),
{
    let s4 = g[4] + w[4] + rest;
    let s3 = g[3] + w[3] + s4;
    let s2 = g[2] + w[2] + s3;
    let s1 = g[1] + w[1] + s2;
    let s0 = g[0] + w[0] + s1;
    assert(s0 =~= g[0] + w[0] + g[1] + w[1] + g[2] + w[2] + g[3] + w[3] + g[4] + w[4] + rest);
    assert(is_gap(g[1]) && is_gap(g[2]) && is_gap(g[3]) && is_gap(g[4]));
    assert(s4[0] == g[4][0] && s3[0] == g[3][0] && s2[0] == g[2][0] && s1[0] == g[1][0]);
    lemma_next_field(g[0], w[0], s1);
    lemma_next_field(g[1], w[1], s2);
    lemma_next_field(g[2], w[2], s3);
    lemma_next_field(g[3], w[3], s4);
    lemma_next_field(g[4], w[4], rest);
    assert(fields(s0, 0) == Some((Seq::<Seq<char>>::empty(), s0)));
    assert(fields(s0, 1) == Some((seq![w[0]], s1)));
    assert(fields(s0, 2) == Some((seq![w[0], w[1]], s2)));
    assert(fields(s0, 3) == Some((seq![w[0], w[1], w[2]], s3)));
    assert(fields(s0, 4) == Some((seq![w[0], w[1], w[2], w[3]], s4)));
    assert(seq![w[0], w[1], w[2], w[3], w[4]] =~= w);
    assert(fields(s0, 5) == Some((w, rest)));
}

/// Whether every character is one of the letters and digits of ASCII.
pub open spec fn is_plain(s: Seq<char>) -> bool {
    forall|j: int|
        0 <= j < s.len() ==> ('0' <= #[trigger] s[j] <= '9' || 'A' <= s[j] <= 'Z' || 'a' <= s[j] <= 'z')
}

proof fn lemma_plain_is_word(s: Seq<char>)
    requires
        s.len() > 0,
        is_plain(s),
    ensures
        crate::text::is_word(s),
{
    assert forall|j: int| 0 <= j < s.len() implies !crate::text::is_space(#[trigger] s[j]) by {
        assert('0' <= s[j] <= '9' || 'A' <= s[j] <= 'Z' || 'a' <= s[j] <= 'z');
    }
}

proof fn lemma_decimal_is_plain(n: nat)
    ensures
        crate::number::decimal(n).len() > 0,
        is_plain(crate::number::decimal(n)),
{
    crate::number::lemma_decimal(n);
    let s = crate::number::decimal(n);
    assert forall|j: int| 0 <= j < s.len() implies ('0' <= #[trigger] s[j] <= '9' || 'A' <= s[j]
        <= 'Z' || 'a' <= s[j] <= 'z') by {
        assert(crate::number::is_digit(s[j]));
    }
}

/// A line that is put together from a page, an index, a resolution, a hash, a file type and
/// a name, with white space between each two, reads back as the file with that page, that
/// index, and each of the others as it was written; where the hash is not known, the file has
/// none.
pub proof fn written_file_reads_back(
    page: u32,
    index: u32,
    xres: Seq<char>,
    hash: Seq<char>,
    filetype: Seq<char>,
    name: Seq<char>,
    gaps: Seq<Seq<char>>,
)
    requires
        page > 0,
        index > 0,
        xres == "org"@ || exists|k: nat| xres == #[trigger] crate::number::decimal(k),
        hash == "unknown"@ || (hash.len() == 40 && forall|j: int|
            0 <= j < 40 ==> ('0' <= #[trigger] hash[j] <= '9' || 'a' <= hash[j] <= 'f')),
        0 < filetype.len() <= 16,
        is_plain(filetype),
        is_safe_component(name),
        !crate::text::is_space(name[0]),
        gaps.len() == 5,
        forall|i: int| 0 <= i < 5 ==> is_gap(#[trigger] gaps[i]),
    ensures
        file_of_line(
            crate::number::decimal(page as nat) + gaps[0] + crate::number::decimal(index as nat)
                + gaps[1] + xres + gaps[2] + hash + gaps[3] + filetype + gaps[4] + name,
        ) == Ok::<FileView, ErrorView>(
            FileView {
                page,
                fileindex: index,
                xres,
                expected_sha1: if hash == "unknown"@ {
                    None
                } else {
                    Some(hash)
                },
                filetype,
                filename: name,
            },
        ),
{
    let p = crate::number::decimal(page as nat);
    let n = crate::number::decimal(index as nat);
    let w = seq![p, n, xres, hash, filetype];
    let e = Seq::<char>::empty();
    let g = seq![e, gaps[0], gaps[1], gaps[2], gaps[3]];
    let rest = gaps[4] + name;
    assert(is_gap(gaps[0]) && is_gap(gaps[1]) && is_gap(gaps[2]) && is_gap(gaps[3]) && is_gap(gaps[4]));
    assert(rest[0] == gaps[4][0]);
    lemma_decimal_is_plain(page as nat);
    lemma_decimal_is_plain(index as nat);
    lemma_plain_is_word(p);
    lemma_plain_is_word(n);
    reveal_strlit("org");
    reveal_strlit("unknown");
    if xres != "org"@ {
        let k = choose|k: nat| xres == #[trigger] crate::number::decimal(k);
        lemma_decimal_is_plain(k);
        crate::number::lemma_decimal(k);
    } else {
        assert(is_plain(xres));
    }
    lemma_plain_is_word(xres);
    assert(is_plain(hash));
    lemma_plain_is_word(hash);
    lemma_plain_is_word(filetype);
    lemma_five_fields(g, w, rest);
    let line = p + gaps[0] + n + gaps[1] + xres + gaps[2] + hash + gaps[3] + filetype + gaps[4] + name;
    assert(g[0] + w[0] + g[1] + w[1] + g[2] + w[2] + g[3] + w[3] + g[4] + w[4] + rest =~= line);
    crate::text::lemma_trim_gap(gaps[4], name);
    crate::number::lemma_parse_decimal(page as nat, u32::MAX as nat);
    crate::number::lemma_parse_decimal(index as nat, u32::MAX as nat);
    assert(is_xres(xres));
    assert(is_safe_filetype(filetype)) by {
        assert forall|j: int| 0 <= j < filetype.len() implies crate::types::is_alphanumeric(
            #[trigger] filetype[j],
        ) by {
            assert('0' <= filetype[j] <= '9' || 'A' <= filetype[j] <= 'Z' || 'a' <= filetype[j] <= 'z');
        }
    }
    if hash != "unknown"@ {
        assert(is_sha1_hex(hash)) by {
            assert forall|j: int| 0 <= j < 40 implies crate::types::is_hex(#[trigger] hash[j]) by {
                assert('0' <= hash[j] <= '9' || 'a' <= hash[j] <= 'f');
            }
        }
        assert(crate::text::ascii_lower(hash) =~= hash) by {
            assert forall|j: int| 0 <= j < 40 implies crate::text::ascii_lower(hash)[j] == hash[j] by {
                assert('0' <= hash[j] <= '9' || 'a' <= hash[j] <= 'f');
            }
        }
    }
}

// ---------------------------------------------------------------------------
// The document
// ---------------------------------------------------------------------------

/// The part of the document that a line stands in.
#[derive(Debug, Clone, Copy, PartialEq, Eq, Structural)]
pub enum Section {
    Header,
    FileList,
    Information,
}

/// What the lines so far have given.
pub ghost struct Reading {
    pub section: Section,
    pub gid: Option<u32>,
    pub count: Option<usize>,
    pub minxres: Option<Seq<char>>,
    pub title: Option<Seq<char>>,
    pub files: Seq<Option<FileView>>,
    pub names: Set<Seq<char>>,
    pub information: Seq<char>,
}

pub open spec fn nothing_read() -> Reading {
    Reading {
        section: Section::Header,
        gid: None,
        count: None,
        minxres: None,
        title: None,
        files: seq![],
        names: Set::empty(),
        information: seq![],
    }
}

/// A line of the header.
pub open spec fn header_line(r: Reading, line: Seq<char>) -> Result<Reading, ErrorView> {
    if line.len() == 0 {
        Ok(r)
    } else if line == "FILELIST"@ {
        match r.count {
            Some(n) => Ok(
                Reading {
                    section: Section::FileList,
                    files: Seq::new(n as nat, |i: int| None::<FileView>),
                    ..r
                },
            ),
            None => Err(ErrorView::Parse("FILELIST before FILECOUNT"@)),
        }
    } else {
        match crate::text::split_once(line, ' ') {
            None => Err(ErrorView::Parse("invalid gallery header line"@)),
            Some((key, value)) => {
                if key == "GID"@ && r.gid is None {
                    match positive(value) {
                        Some(n) => Ok(Reading { gid: Some(n), ..r }),
                        None => Err(ErrorView::Parse("invalid "@ + "gid"@)),
                    }
                } else if key == "FILECOUNT"@ && r.count is None {
                    match positive(value) {
                        Some(n) => if n > MAX_GALLERY_FILES {
                            Err(ErrorView::Parse("gallery filecount exceeds limit"@))
                        } else {
                            Ok(Reading { count: Some(n as usize), ..r })
                        },
                        None => Err(ErrorView::Parse("invalid "@ + "filecount"@)),
                    }
                } else if key == "MINXRES"@ && r.minxres is None && is_xres(value) {
                    Ok(Reading { minxres: Some(value), ..r })
                } else if key == "TITLE"@ && r.title is None {
                    Ok(Reading { title: Some(sanitized_title(value)), ..r })
                } else {
                    Err(ErrorView::Parse("invalid gallery header key: "@ + key))
                }
            },
        }
    }
}

/// A line of the file list.
pub open spec fn list_line(r: Reading, line: Seq<char>) -> Result<Reading, ErrorView> {
    if line.len() == 0 {
        Ok(r)
    } else if line == "INFORMATION"@ {
        Ok(Reading { section: Section::Information, ..r })
    } else {
        match file_of_line(line) {
            Err(e) => Err(e),
            Ok(f) => {
                if f.page > r.files.len() {
                    Err(ErrorView::Parse("gallery page is out of range"@))
                } else if r.names.contains(rendered_name(f)) {
                    Err(ErrorView::Parse("gallery contains duplicate output filename"@))
                } else if r.files[f.page - 1] is Some {
                    Err(ErrorView::Parse("gallery contains duplicate page"@))
                } else {
                    Ok(
                        Reading {
                            files: r.files.update(f.page - 1, Some(f)),
                            names: r.names.insert(rendered_name(f)),
                            ..r
                        },
                    )
                }
            },
        }
    }
}

/// One more line.
pub open spec fn line_read(r: Reading, line: Seq<char>) -> Result<Reading, ErrorView> {
    match r.section {
        Section::Header => header_line(r, line),
        Section::FileList => list_line(r, line),
        Section::Information => Ok(Reading { information: r.information + line + seq!['\n'], ..r }),
    }
}

/// All the lines, up to the first that is wrong.
pub open spec fn lines_read(lines: Seq<Seq<char>>) -> Result<Reading, ErrorView>
    decreases lines.len(),
{
    if lines.len() == 0 {
        Ok(nothing_read())
    } else {
        match lines_read(lines.drop_last()) {
            Ok(r) => line_read(r, lines.last()),
            Err(e) => Err(e),
        }
    }
}

/// The gallery, where nothing is missing.
pub open spec fn gallery_of(r: Reading) -> Result<MetadataView, ErrorView> {
    if r.gid is None {
        Err(ErrorView::Parse("gallery has no gid"@))
    } else if r.minxres is None {
        Err(ErrorView::Parse("gallery has no minxres"@))
    } else if r.title is None {
        Err(ErrorView::Parse("gallery has no title"@))
    } else if r.count is None {
        Err(ErrorView::Parse("gallery has no filecount"@))
    } else if r.section != Section::Information {
        Err(ErrorView::Parse("gallery has no INFORMATION section"@))
    } else if r.files.len() != r.count->0 || exists|i: int|
        0 <= i < r.files.len() && (#[trigger] r.files[i]) is None {
        Err(ErrorView::Parse("gallery file list is incomplete"@))
    } else {
        Ok(
            MetadataView {
                gid: r.gid->0,
                minxres: r.minxres->0,
                title: r.title->0,
                information: r.information,
                files: Seq::new(r.files.len(), |i: int| r.files[i]->0),
            },
        )
    }
}

/// The gallery that a document describes.
pub open spec fn parsed_gallery(raw: Seq<char>) -> Result<MetadataView, ErrorView> {
    match lines_read(crate::text::lines(raw)) {
        Ok(r) => gallery_of(r),
        Err(e) => Err(e),
    }
}

// ---------------------------------------------------------------------------
// Law: an accepted gallery is complete and safe
// ---------------------------------------------------------------------------

/// A file whose name stays in the directory of its gallery.
pub open spec fn is_safe_file(f: FileView) -> bool {
    is_xres(f.xres) && is_safe_component(f.filename) && is_safe_filetype(f.filetype)
}

spec fn reading_is_sound(r: Reading) -> bool {
    &&& r.count matches Some(n) ==> 0 < n <= MAX_GALLERY_FILES
    &&& r.minxres matches Some(x) ==> is_xres(x)
    &&& r.gid matches Some(g) ==> g > 0
    &&& r.title matches Some(t) ==> keeps_all(t) && sanitized_title(t) == t
    &&& r.section != Section::Header ==> r.count is Some && r.files.len() == r.count->0
    &&& r.section == Section::Header ==> r.files.len() == 0
    &&& forall|i: int|
        0 <= i < r.files.len() && (#[trigger] r.files[i]) is Some ==> r.files[i]->0.page == i + 1
            && is_safe_file(r.files[i]->0) && r.names.contains(rendered_name(r.files[i]->0))
    &&& forall|i: int, j: int|
        0 <= i < j < r.files.len() && (#[trigger] r.files[i]) is Some && (#[trigger] r.files[j]) is Some
            ==> rendered_name(r.files[i]->0) != rendered_name(r.files[j]->0)
}

proof fn lemma_line_is_sound(r: Reading, line: Seq<char>)
    requires
        reading_is_sound(r),
        line_read(r, line) is Ok,
    ensures
        reading_is_sound(line_read(r, line)->Ok_0),
{
    let s = line_read(r, line)->Ok_0;
    match r.section {
        Section::Header => {
            match crate::text::split_once(line, ' ') {
                Some((_, value)) => sanitized_titles_stay(value),
                None => {},
            }
        },
        Section::FileList => {
            if line.len() != 0 && line != "INFORMATION"@ {
                let f = file_of_line(line)->Ok_0;
                let p = f.page - 1;
                assert forall|i: int|
                    0 <= i < s.files.len() && (#[trigger] s.files[i]) is Some implies s.files[i]->0.page == i
                    + 1 && is_safe_file(s.files[i]->0) && s.names.contains(
                    rendered_name(s.files[i]->0),
                ) by {
                    if i != p {
                        assert(s.files[i] == r.files[i]);
                    }
                }
                assert forall|i: int, j: int|
                    0 <= i < j < s.files.len() && (#[trigger] s.files[i]) is Some && (
                    #[trigger] s.files[j]) is Some implies rendered_name(s.files[i]->0) != rendered_name(
                    s.files[j]->0,
                ) by {
                    if i != p {
                        assert(s.files[i] == r.files[i]);
                    }
                    if j != p {
                        assert(s.files[j] == r.files[j]);
                    }
                }
            }
        },
        Section::Information => {},
    }
}

proof fn lemma_lines_are_sound(lines: Seq<Seq<char>>)
    requires
        lines_read(lines) is Ok,
    ensures
        reading_is_sound(lines_read(lines)->Ok_0),
    decreases lines.len(),
{
    if lines.len() > 0 {
        lemma_lines_are_sound(lines.drop_last());
        lemma_line_is_sound(lines_read(lines.drop_last())->Ok_0, lines.last());
    }
}

/// An accepted gallery has a number above nought, a sanitized title, and between one and ten
/// thousand files, one for each page in order, each with a name that stays in the gallery's
/// directory, and no name twice.
pub proof fn accepted_gallery_is_complete_and_safe(raw: Seq<char>)
    requires
        parsed_gallery(raw) is Ok,
    ensures
        ({
            let m = parsed_gallery(raw)->Ok_0;
            &&& m.gid > 0
            &&& keeps_all(m.title)
            &&& sanitized_title(m.title) == m.title
            &&& 0 < m.files.len() <= MAX_GALLERY_FILES
            &&& is_xres(m.minxres)
            &&& forall|i: int|
                0 <= i < m.files.len() ==> (#[trigger] m.files[i]).page == i + 1 && is_safe_file(
                    m.files[i],
                )
            &&& forall|i: int, j: int|
                0 <= i < j < m.files.len() ==> rendered_name(#[trigger] m.files[i]) != rendered_name(
                    #[trigger] m.files[j],
                )
        }),
{
    let lines = crate::text::lines(raw);
    lemma_lines_are_sound(lines);
    let r = lines_read(lines)->Ok_0;
    let m = parsed_gallery(raw)->Ok_0;
    assert forall|i: int| 0 <= i < m.files.len() implies (#[trigger] m.files[i]).page == i + 1
        && is_safe_file(m.files[i]) by {
        assert(r.files[i] is Some);
    }
    assert forall|i: int, j: int| 0 <= i < j < m.files.len() implies rendered_name(
        #[trigger] m.files[i],
    ) != rendered_name(#[trigger] m.files[j]) by {
        assert(r.files[i] is Some);
        assert(r.files[j] is Some);
    }
}

// ---------------------------------------------------------------------------
// Law: a gallery reads back as it was written
// ---------------------------------------------------------------------------

/// A file that can be written on a line: its numbers are above nought, its resolution is the
/// original or a number, its hash is one or not known, its type is of letters and digits, and
/// its name is a safe one on one line.
pub open spec fn can_be_listed(f: FileView) -> bool {
    &&& f.page > 0
    &&& f.fileindex > 0
    &&& f.xres == "org"@ || exists|k: nat| f.xres == #[trigger] crate::number::decimal(k)
    &&& f.expected_sha1 matches Some(h) ==> h.len() == 40 && forall|j: int|
        0 <= j < 40 ==> ('0' <= #[trigger] h[j] <= '9' || 'a' <= h[j] <= 'f')
    &&& 0 < f.filetype.len() <= 16
    &&& is_plain(f.filetype)
    &&& is_safe_component(f.filename)
    &&& !crate::text::is_space(f.filename[0])
    &&& !f.filename.contains('\n')
    &&& f.filename.last() != '\r'
}

/// A file on a line of its own: the page, the index, the resolution, the hash, the type and the
/// name, with a blank between each two.
pub open spec fn file_line(f: FileView) -> Seq<char> {
    crate::number::decimal(f.page as nat) + seq![' '] + crate::number::decimal(f.fileindex as nat)
        + seq![' '] + f.xres + seq![' '] + (match f.expected_sha1 {
        Some(h) => h,
        None => "unknown"@,
    }) + seq![' '] + f.filetype + seq![' '] + f.filename
}

/// A gallery as a document: its number, the number of its files, the smallest resolution and
/// the title in the header, a line for each file, and lines of information.
pub open spec fn document_lines(
    gid: u32,
    minxres: Seq<char>,
    title: Seq<char>,
    files: Seq<FileView>,
    information: Seq<Seq<char>>,
) -> Seq<Seq<char>> {
    seq![
        "GID "@ + crate::number::decimal(gid as nat),
        "FILECOUNT "@ + crate::number::decimal(files.len()),
        "MINXRES "@ + minxres,
        "TITLE "@ + title,
        "FILELIST"@,
    ] + Seq::new(files.len(), |i: int| file_line(files[i])) + seq!["INFORMATION"@] + information
}

proof fn lemma_file_line(f: FileView)
    requires
        can_be_listed(f),
    ensures
        file_of_line(file_line(f)) == Ok::<FileView, ErrorView>(f),
        file_line(f).len() > 0,
        file_line(f) != "INFORMATION"@,
        crate::text::is_line(file_line(f)),
{
    let hash = match f.expected_sha1 {
        Some(h) => h,
        None => "unknown"@,
    };
    let b = seq![' '];
    let gaps = seq![b, b, b, b, b];
    assert(crate::text::is_space(' '));
    assert(is_gap(b));
    reveal_strlit("unknown");
    reveal_strlit("INFORMATION");
    reveal_strlit("org");
    written_file_reads_back(f.page, f.fileindex, f.xres, hash, f.filetype, f.filename, gaps);
    let p = crate::number::decimal(f.page as nat);
    let n = crate::number::decimal(f.fileindex as nat);
    lemma_decimal_is_plain(f.page as nat);
    lemma_decimal_is_plain(f.fileindex as nat);
    crate::number::lemma_decimal(f.page as nat);
    assert(crate::number::is_digit(p[0]));
    let line = file_line(f);
    assert(line[0] == p[0]);
    assert("INFORMATION"@[0] == 'I');
    if f.xres != "org"@ {
        let k = choose|k: nat| f.xres == #[trigger] crate::number::decimal(k);
        lemma_decimal_is_plain(k);
    }
    assert(is_plain(f.xres) && is_plain(hash));
    assert(line.last() == f.filename.last());
    let head = p + b + n + b + f.xres + b + hash + b + f.filetype + b;
    assert(line =~= head + f.filename);
    assert forall|j: int| 0 <= j < line.len() implies line[j] != '\n' by {
        if j >= head.len() {
            assert(line[j] == f.filename[j - head.len()]);
            assert(f.filename.contains(f.filename[j - head.len()]));
        } else {
            lemma_head_chars(p, n, f.xres, hash, f.filetype, j);
        }
    }
}

proof fn lemma_head_chars(
    p: Seq<char>,
    n: Seq<char>,
    x: Seq<char>,
    h: Seq<char>,
    t: Seq<char>,
    j: int,
)
    requires
        is_plain(p),
        is_plain(n),
        is_plain(x),
        is_plain(h),
        is_plain(t),
        0 <= j < (p + seq![' '] + n + seq![' '] + x + seq![' '] + h + seq![' '] + t + seq![' ']).len(),
    ensures
        (p + seq![' '] + n + seq![' '] + x + seq![' '] + h + seq![' '] + t + seq![' '])[j] != '\n',
{
}

proof fn lemma_header_line(key: Seq<char>, value: Seq<char>)
    requires
        key.len() > 0,
        !key.contains(' '),
    ensures
        crate::text::split_once(key + seq![' '] + value, ' ') == Some((key, value)),
        (key + seq![' '] + value).len() > 0,
        key + seq![' '] + value != "FILELIST"@,
{
    crate::text::lemma_split_first(key, ' ', value);
    reveal_strlit("FILELIST");
    let line = key + seq![' '] + value;
    assert(line[key.len() as int] == ' ');
    if line == "FILELIST"@ {
        assert(!"FILELIST"@.contains(' '));
        assert("FILELIST"@.contains(line[key.len() as int]));
    }
}

spec fn header_read(gid: u32, minxres: Seq<char>, title: Seq<char>, count: nat) -> Reading {
    Reading {
        section: Section::FileList,
        gid: Some(gid),
        count: Some(count as usize),
        minxres: Some(minxres),
        title: Some(sanitized_title(title)),
        files: Seq::new(count, |i: int| None::<FileView>),
        names: Set::empty(),
        information: seq![],
    }
}

#[verifier::rlimit(40)]
proof fn lemma_header_read(lines: Seq<Seq<char>>, gid: u32, minxres: Seq<char>, title: Seq<char>, count: nat)
    requires
        gid > 0,
        0 < count <= 10_000,
        minxres == "org"@ || exists|k: nat| minxres == #[trigger] crate::number::decimal(k),
        lines.len() == 5,
        lines[0] == "GID "@ + crate::number::decimal(gid as nat),
        lines[1] == "FILECOUNT "@ + crate::number::decimal(count),
        lines[2] == "MINXRES "@ + minxres,
        lines[3] == "TITLE "@ + title,
        lines[4] == "FILELIST"@,
    ensures
        lines_read(lines) == Ok::<Reading, ErrorView>(header_read(gid, minxres, title, count)),
{
    reveal_strlit("GID");
    reveal_strlit("FILECOUNT");
    reveal_strlit("MINXRES");
    reveal_strlit("TITLE");
    reveal_strlit("GID ");
    reveal_strlit("FILECOUNT ");
    reveal_strlit("MINXRES ");
    reveal_strlit("TITLE ");
    reveal_strlit("FILELIST");
    reveal_strlit("org");
    assert("GID "@ + crate::number::decimal(gid as nat) =~= "GID"@ + seq![' '] + crate::number::decimal(
        gid as nat,
    ));
    assert("FILECOUNT "@ + crate::number::decimal(count) =~= "FILECOUNT"@ + seq![' ']
        + crate::number::decimal(count));
    assert("MINXRES "@ + minxres =~= "MINXRES"@ + seq![' '] + minxres);
    assert("TITLE "@ + title =~= "TITLE"@ + seq![' '] + title);
    let r0 = nothing_read();
    let r1 = Reading { gid: Some(gid), ..r0 };
    let r2 = Reading { count: Some(count as usize), ..r1 };
    let r3 = Reading { minxres: Some(minxres), ..r2 };
    let r4 = Reading { title: Some(sanitized_title(title)), ..r3 };
    lemma_header_line("GID"@, crate::number::decimal(gid as nat));
    lemma_header_line("FILECOUNT"@, crate::number::decimal(count));
    lemma_header_line("MINXRES"@, minxres);
    lemma_header_line("TITLE"@, title);
    crate::number::lemma_parse_decimal(gid as nat, u32::MAX as nat);
    crate::number::lemma_parse_decimal(count, u32::MAX as nat);
    if minxres != "org"@ {
        let k = choose|k: nat| minxres == #[trigger] crate::number::decimal(k);
        crate::number::lemma_decimal(k);
    }
    assert(is_xres(minxres));
    assert("GID"@.len() == 3 && "FILECOUNT"@.len() == 9 && "MINXRES"@.len() == 7 && "TITLE"@.len() == 5);
    assert(header_line(r0, lines[0]) == Ok::<Reading, ErrorView>(r1));
    assert(header_line(r1, lines[1]) == Ok::<Reading, ErrorView>(r2));
    assert(header_line(r2, lines[2]) == Ok::<Reading, ErrorView>(r3));
    assert(header_line(r3, lines[3]) == Ok::<Reading, ErrorView>(r4));
    let l0 = lines.take(0);
    let l1 = lines.take(1);
    let l2 = lines.take(2);
    let l3 = lines.take(3);
    let l4 = lines.take(4);
    assert(l1.drop_last() =~= l0 && l1.last() == lines[0]);
    assert(l2.drop_last() =~= l1 && l2.last() == lines[1]);
    assert(l3.drop_last() =~= l2 && l3.last() == lines[2]);
    assert(l4.drop_last() =~= l3 && l4.last() == lines[3]);
    assert(lines.drop_last() =~= l4 && lines.last() == lines[4]);
    assert(lines_read(l0) == Ok::<Reading, ErrorView>(r0));
    assert(lines_read(l1) == Ok::<Reading, ErrorView>(r1));
    assert(lines_read(l2) == Ok::<Reading, ErrorView>(r2));
    assert(lines_read(l3) == Ok::<Reading, ErrorView>(r3));
    assert(lines_read(l4) == Ok::<Reading, ErrorView>(r4));
}

/// What has been read when the first `n` files are.
spec fn files_read(h: Reading, files: Seq<FileView>, n: int) -> Reading {
    Reading {
        files: Seq::new(
            files.len(),
            |i: int|
                if i < n {
                    Some(files[i])
                } else {
                    None
                },
        ),
        names: Set::new(|s: Seq<char>| exists|i: int| 0 <= i < n && s == rendered_name(#[trigger] files[i])),
        ..h
    }
}

proof fn lemma_files_read(before: Seq<Seq<char>>, h: Reading, files: Seq<FileView>, n: int)
    requires
        lines_read(before) == Ok::<Reading, ErrorView>(h),
        h.section == Section::FileList,
        h.files == Seq::new(files.len(), |i: int| None::<FileView>),
        h.names == Set::<Seq<char>>::empty(),
        0 <= n <= files.len(),
        forall|i: int| 0 <= i < files.len() ==> can_be_listed(#[trigger] files[i]) && files[i].page == i + 1,
        forall|i: int, j: int|
            0 <= i < j < files.len() ==> rendered_name(#[trigger] files[i]) != rendered_name(
                #[trigger] files[j],
            ),
    ensures
        lines_read(before + Seq::new(n as nat, |i: int| file_line(files[i]))) == Ok::<Reading, ErrorView>(
            files_read(h, files, n),
        ),
    decreases n,
{
    let written = Seq::new(n as nat, |i: int| file_line(files[i]));
    let lines = before + written;
    let r = files_read(h, files, n);
    if n == 0 {
        assert(lines =~= before);
        assert(r.files =~= h.files);
        assert(r.names =~= h.names);
    } else {
        lemma_files_read(before, h, files, n - 1);
        let f = files[n - 1];
        let less = Seq::new((n - 1) as nat, |i: int| file_line(files[i]));
        assert(lines.drop_last() =~= before + less);
        assert(lines.last() == file_line(f));
        let b = files_read(h, files, n - 1);
        assert(can_be_listed(files[n - 1]));
        lemma_file_line(f);
        assert(f.page == n);
        assert(!b.names.contains(rendered_name(f)));
        assert(b.files[n - 1] is None);
        assert(b.files.update(n - 1, Some(f)) =~= r.files);
        assert(b.names.insert(rendered_name(f)) =~= r.names) by {
            assert forall|s: Seq<char>| b.names.insert(rendered_name(f)).contains(s) == r.names.contains(s) by {
                if s == rendered_name(f) {
                    assert(s == rendered_name(files[n - 1]));
                }
            }
        }
        assert(list_line(b, file_line(f)) == Ok::<Reading, ErrorView>(r));
    }
}

/// The lines of information, each with its end.
pub open spec fn information_text(lines: Seq<Seq<char>>) -> Seq<char>
    decreases lines.len(),
{
    if lines.len() == 0 {
        seq![]
    } else {
        information_text(lines.drop_last()) + lines.last() + seq!['\n']
    }
}

proof fn lemma_information_read(before: Seq<Seq<char>>, r: Reading, information: Seq<Seq<char>>)
    requires
        lines_read(before) == Ok::<Reading, ErrorView>(r),
        r.section == Section::Information,
        r.information == Seq::<char>::empty(),
    ensures
        lines_read(before + information) == Ok::<Reading, ErrorView>(
            Reading { information: information_text(information), ..r },
        ),
    decreases information.len(),
{
    if information.len() == 0 {
        assert(before + information =~= before);
    } else {
        lemma_information_read(before, r, information.drop_last());
        let all = before + information;
        assert(all.drop_last() =~= before + information.drop_last());
        assert(all.last() == information.last());
    }
}

/// A document with the number of a gallery, its smallest resolution, its title, a line for
/// each page in order and some lines of information reads back as the gallery with that
/// number, that resolution, that title without what a title does not keep, those files and
/// that information.
pub proof fn written_gallery_reads_back(
    gid: u32,
    minxres: Seq<char>,
    title: Seq<char>,
    files: Seq<FileView>,
    information: Seq<Seq<char>>,
)
    requires
        gid > 0,
        minxres == "org"@ || exists|k: nat| minxres == #[trigger] crate::number::decimal(k),
        !title.contains('\n'),
        title.len() > 0 ==> title.last() != '\r',
        0 < files.len() <= 10_000,
        forall|i: int| 0 <= i < files.len() ==> can_be_listed(#[trigger] files[i]) && files[i].page == i + 1,
        forall|i: int, j: int|
            0 <= i < j < files.len() ==> rendered_name(#[trigger] files[i]) != rendered_name(
                #[trigger] files[j],
            ),
        forall|i: int| 0 <= i < information.len() ==> crate::text::is_line(#[trigger] information[i]),
    ensures
        parsed_gallery(
            crate::text::join(document_lines(gid, minxres, title, files, information), seq!['\n']),
        ) == Ok::<MetadataView, ErrorView>(
            MetadataView {
                gid,
                minxres,
                title: sanitized_title(title),
                information: information_text(information),
                files,
            },
        ),
{
    let lines = document_lines(gid, minxres, title, files, information);
    let header = lines.take(5);
    let h = header_read(gid, minxres, title, files.len());
    let listed = Seq::new(files.len(), |i: int| file_line(files[i]));
    lemma_header_read(header, gid, minxres, title, files.len());
    lemma_files_read(header, h, files, files.len() as int);
    let r = files_read(h, files, files.len() as int);
    let ended = header + listed + seq!["INFORMATION"@];
    assert(ended.drop_last() =~= header + listed);
    reveal_strlit("INFORMATION");
    let s = Reading { section: Section::Information, ..r };
    assert(lines_read(ended) == Ok::<Reading, ErrorView>(s));
    lemma_information_read(ended, s, information);
    assert(lines =~= ended + information);
    assert forall|i: int| 0 <= i < lines.len() implies crate::text::is_line(#[trigger] lines[i]) by {
        lemma_document_line(gid, minxres, title, files, information, i);
    }
    crate::text::lemma_lines_of_joined(lines);
    let t = lines_read(lines)->Ok_0;
    assert(forall|i: int| 0 <= i < t.files.len() ==> (#[trigger] t.files[i]) is Some);
    assert(Seq::new(t.files.len(), |i: int| t.files[i]->0) =~= files);
}

proof fn lemma_document_line(
    gid: u32,
    minxres: Seq<char>,
    title: Seq<char>,
    files: Seq<FileView>,
    information: Seq<Seq<char>>,
    i: int,
)
    requires
        minxres == "org"@ || exists|k: nat| minxres == #[trigger] crate::number::decimal(k),
        !title.contains('\n'),
        title.len() > 0 ==> title.last() != '\r',
        forall|i: int| 0 <= i < files.len() ==> can_be_listed(#[trigger] files[i]),
        forall|i: int| 0 <= i < information.len() ==> crate::text::is_line(#[trigger] information[i]),
        0 <= i < document_lines(gid, minxres, title, files, information).len(),
    ensures
        crate::text::is_line(document_lines(gid, minxres, title, files, information)[i]),
{
    let lines = document_lines(gid, minxres, title, files, information);
    let n = files.len() as int;
    reveal_strlit("GID ");
    reveal_strlit("FILECOUNT ");
    reveal_strlit("MINXRES ");
    reveal_strlit("TITLE ");
    reveal_strlit("FILELIST");
    reveal_strlit("INFORMATION");
    reveal_strlit("org");
    lemma_decimal_is_plain(gid as nat);
    lemma_decimal_is_plain(files.len());
    if minxres != "org"@ {
        let k = choose|k: nat| minxres == #[trigger] crate::number::decimal(k);
        lemma_decimal_is_plain(k);
    }
    assert(minxres.len() > 0 && is_plain(minxres));
    if i == 0 {
        lemma_plain_tail("GID "@, crate::number::decimal(gid as nat));
    } else if i == 1 {
        lemma_plain_tail("FILECOUNT "@, crate::number::decimal(files.len()));
    } else if i == 2 {
        lemma_plain_tail("MINXRES "@, minxres);
    } else if i == 3 {
        let l = "TITLE "@ + title;
        assert(lines[i] == l);
        assert forall|j: int| 0 <= j < l.len() implies l[j] != '\n' by {
            if j >= 6 {
                assert(l[j] == title[j - 6]);
                assert(title.contains(title[j - 6]));
            }
        }
        assert(!l.contains('\n'));
    } else if 5 <= i < 5 + n {
        assert(lines[i] == file_line(files[i - 5]));
        assert(can_be_listed(files[i - 5]));
        lemma_file_line(files[i - 5]);
    } else if i > 5 + n {
        assert(lines[i] == information[i - 6 - n]);
    }
}

proof fn lemma_plain_tail(head: Seq<char>, tail: Seq<char>)
    requires
        tail.len() > 0,
        is_plain(tail),
        forall|j: int| 0 <= j < head.len() ==> #[trigger] head[j] != '\n',
    ensures
        crate::text::is_line(head + tail),
{
    let l = head + tail;
    assert forall|j: int| 0 <= j < l.len() implies l[j] != '\n' by {
        if j >= head.len() {
            assert(l[j] == tail[j - head.len()]);
        }
    }
    assert(l.last() == tail.last());
    assert(tail[tail.len() - 1] == tail.last());
}

// ---------------------------------------------------------------------------
// Reading the document
// ---------------------------------------------------------------------------

fn parse_error(message: &str) -> (r: HathError)
    ensures
        r@ == ErrorView::Parse(message@),
{
    HathError::Parse(String::from_str(message))
}

pub fn parse_positive(value: &str, field: &str) -> (r: Result<u32, HathError>)
    ensures
        match r {
            Ok(n) => positive(value@) == Some(n),
            Err(e) => positive(value@) is None && e@ == ErrorView::Parse("invalid "@ + field@),
        },
{
    match crate::number::read_u32(value) {
        Some(n) => if n > 0 {
            Ok(n)
        } else {
            Err(HathError::Parse(crate::text::concat("invalid ", field)))
        },
        None => Err(HathError::Parse(crate::text::concat("invalid ", field))),
    }
}

pub fn valid_xres(value: &str) -> (r: bool)
    ensures
        r == is_xres(value@),
{
    if crate::text::str_eq(value, "org") {
        return true;
    }
    let cs = crate::text::to_chars(value);
    if cs.len() == 0 {
        return false;
    }
    let mut i: usize = 0;
    while i < cs.len()
        invariant
            cs@ == value@,
            i <= cs.len(),
            value@ != "org"@,
            forall|j: int| 0 <= j < i ==> crate::number::is_digit(#[trigger] value@[j]),
        decreases cs.len() - i,
    {
        if !crate::number::char_is_digit(cs[i]) {
            assert(!crate::number::is_digit(value@[i as int]));
            return false;
        }
        i += 1;
    }
    true
}

pub fn safe_filetype(value: &str) -> (r: bool)
    ensures
        r == is_safe_filetype(value@),
{
    let cs = crate::text::to_chars(value);
    if cs.len() == 0 || cs.len() > 16 {
        return false;
    }
    let mut i: usize = 0;
    while i < cs.len()
        invariant
            cs@ == value@,
            i <= cs.len(),
            forall|j: int| 0 <= j < i ==> crate::types::is_alphanumeric(#[trigger] value@[j]),
        decreases cs.len() - i,
    {
        if !crate::types::char_is_alphanumeric(cs[i]) {
            assert(!crate::types::is_alphanumeric(value@[i as int]));
            return false;
        }
        i += 1;
    }
    true
}

fn is_device(base: &str) -> (r: bool)
    ensures
        r == is_device_name(base@),
{
    let lower = crate::text::to_ascii_lower(base);
    let b = lower.as_str();
    if crate::text::str_eq(b, "con") || crate::text::str_eq(b, "prn") || crate::text::str_eq(b, "aux")
        || crate::text::str_eq(b, "nul") {
        return true;
    }
    let cs = crate::text::to_chars(b);
    if cs.len() != 4 {
        return false;
    }
    let start = crate::text::substring(&cs, 0, 3);
    assert(start@ =~= b@.take(3));
    (crate::text::str_eq(start.as_str(), "com") || crate::text::str_eq(start.as_str(), "lpt")) && cs[3]
        >= '1' && cs[3] <= '9'
}

pub fn safe_file_component(value: &str) -> (r: bool)
    ensures
        r == is_safe_component(value@),
{
    let cs = crate::text::to_chars(value);
    if cs.len() == 0 {
        return false;
    }
    let last = cs[cs.len() - 1];
    if last == '.' || last == ' ' {
        return false;
    }
    let mut i: usize = 0;
    while i < cs.len()
        invariant
            cs@ == value@,
            i <= cs.len(),
            forall|j: int| 0 <= j < i ==> !is_unsafe_char(#[trigger] value@[j]),
        decreases cs.len() - i,
    {
        let c = cs[i];
        if c == '/' || c == '\\' || c == ':' || c == '\0' {
            assert(is_unsafe_char(value@[i as int]));
            return false;
        }
        i += 1;
    }
    let dot = crate::text::find_from(&cs, 0, '.');
    assert(cs@.skip(0) =~= value@);
    let base = crate::text::substring(&cs, 0, dot);
    assert(base@ =~= value@.take(dot as int));
    !is_device(base.as_str())
}

pub fn sanitize_title(value: &str) -> (r: String)
    ensures
        r@ == sanitized_title(value@),
        keeps_all(r@),
        sanitized_title(r@) == r@,
{
    proof {
        sanitized_titles_stay(value@);
    }
    let cs = crate::text::to_chars(value);
    let mut kept = String::new();
    let mut i: usize = 0;
    assert(value@.take(0) =~= seq![]);
    while i < cs.len()
        invariant
            cs@ == value@,
            i <= cs.len(),
            kept@ == without_dropped(value@.take(i as int)),
        decreases cs.len() - i,
    {
        let c = cs[i];
        assert(value@.take(i + 1).drop_last() =~= value@.take(i as int));
        assert(value@.take(i + 1).last() == c);
        if !(c == '*' || c == '"' || c == '\\' || c == '/' || c == '<' || c == '>' || c == ':' || c == '|'
            || c == '?') {
            kept.push(c);
        }
        i += 1;
    }
    assert(value@.take(i as int) =~= value@);
    let words = crate::text::split_words(kept.as_str());
    crate::text::joined(&words, " ")
}

#[verifier::spinoff_prover]
#[verifier::rlimit(50)]
pub fn parse_file_line(line: &str) -> (r: Result<GalleryFile, HathError>)
    ensures
        match r {
            Ok(f) => file_of_line(line@) == Ok::<FileView, ErrorView>(f@),
            Err(e) => file_of_line(line@) == Err::<FileView, ErrorView>(e@),
        },
{
    let cs = crate::text::to_chars(line);
    let mut found: Vec<String> = Vec::new();
    let mut at: usize = 0;
    assert(cs@.skip(0) =~= line@);
    assert(crate::text::texts(found@) =~= seq![]);
    while found.len() < 5
        invariant
            cs@ == line@,
            at <= cs.len(),
            found@.len() <= 5,
            fields(line@, found@.len()) == Some((crate::text::texts(found@), cs@.skip(at as int))),
        decreases 5 - found.len(),
    {
        let ghost before = crate::text::texts(found@);
        let ghost n = found@.len();
        let ghost rest = cs@.skip(at as int);
        let start = crate::text::skip_space(&cs, at);
        let end = crate::text::find_space(&cs, start);
        let ghost r = crate::text::trim_start(rest);
        if end == cs.len() {
            proof {
                assert(fields(line@, (n + 1) as nat) is None);
                lemma_fields_none(line@, (n + 1) as nat, 5);
            }
            return Err(parse_error("truncated gallery file entry"));
        }
        let field = crate::text::substring(&cs, start, end);
        assert(field@ =~= r.take(end - start));
        assert(r.skip(end - start) =~= cs@.skip(end as int));
        found.push(field);
        assert(crate::text::texts(found@) =~= before.push(field@));
        at = end;
    }
    let ghost f = crate::text::texts(found@);
    let ghost rest = cs@.skip(at as int);
    let start = crate::text::skip_space(&cs, at);
    let filename = crate::text::substring(&cs, start, cs.len());
    assert(filename@ =~= crate::text::trim_start(rest));
    let page: u32 = match parse_positive(found[0].as_str(), "page") {
        Ok(n) => n,
        Err(e) => return Err(e),
    };
    let fileindex: u32 = match parse_positive(found[1].as_str(), "fileindex") {
        Ok(n) => n,
        Err(e) => return Err(e),
    };
    if !valid_xres(found[2].as_str()) || !safe_file_component(filename.as_str()) || !safe_filetype(
        found[4].as_str(),
    ) {
        return Err(parse_error("unsafe gallery file entry"));
    }
    let expected_sha1 = if crate::text::str_eq(found[3].as_str(), "unknown") {
        None
    } else {
        match Sha1Hash::new(found[3].as_str()) {
            Some(h) => Some(h),
            None => return Err(parse_error("invalid gallery SHA-1")),
        }
    };
    Ok(
        GalleryFile {
            page,
            fileindex,
            xres: found[2].clone(),
            expected_sha1,
            filetype: found[4].clone(),
            filename,
        },
    )
}

proof fn lemma_fields_none(s: Seq<char>, k: nat, n: nat)
    requires
        k <= n,
        fields(s, k) is None,
    ensures
        fields(s, n) is None,
    decreases n,
{
    if k < n {
        lemma_fields_none(s, k, (n - 1) as nat);
    }
}

/// The name of a file: its name and its type.
pub fn gallery_file_name(file: &GalleryFile) -> (r: String)
    ensures
        r@ == rendered_name(file@),
{
    let mut out = file.filename.clone();
    out.append(".");
    out.append(file.filetype.as_str());
    out
}

struct Reader {
    section: Section,
    gid: Option<u32>,
    count: Option<usize>,
    minxres: Option<String>,
    title: Option<String>,
    files: Vec<Option<GalleryFile>>,
    names: vstd::hash_set::StringHashSet,
    information: String,
}

spec fn slot_view(o: Option<GalleryFile>) -> Option<FileView> {
    match o {
        Some(f) => Some(f@),
        None => None,
    }
}

spec fn slot_views(v: Seq<Option<GalleryFile>>) -> Seq<Option<FileView>> {
    Seq::new(v.len(), |i: int| slot_view(v[i]))
}

impl View for Reader {
    type V = Reading;

    closed spec fn view(&self) -> Reading {
        Reading {
            section: self.section,
            gid: self.gid,
            count: self.count,
            minxres: crate::text::opt_text(self.minxres),
            title: crate::text::opt_text(self.title),
            files: slot_views(self.files@),
            names: self.names@,
            information: self.information@,
        }
    }
}

fn empty_slots(n: usize) -> (r: Vec<Option<GalleryFile>>)
    ensures
        slot_views(r@) == Seq::new(n as nat, |i: int| None::<FileView>),
{
    let mut r: Vec<Option<GalleryFile>> = Vec::new();
    let mut i: usize = 0;
    while i < n
        invariant
            i <= n,
            r@.len() == i,
            forall|j: int| 0 <= j < i ==> (#[trigger] r@[j]) is None,
        decreases n - i,
    {
        r.push(None);
        i += 1;
    }
    assert(slot_views(r@) =~= Seq::new(n as nat, |i: int| None::<FileView>));
    r
}

impl Reader {
    fn read_header(&mut self, line: &str) -> (r: Result<(), HathError>)
        requires
            old(self)@.section == Section::Header,
        ensures
            match r {
                Ok(()) => header_line(old(self)@, line@) == Ok::<Reading, ErrorView>(final(self)@),
                Err(e) => header_line(old(self)@, line@) == Err::<Reading, ErrorView>(e@),
            },
    {
        if line.is_empty() {
            return Ok(());
        }
        if crate::text::str_eq(line, "FILELIST") {
            match self.count {
                Some(n) => {
                    self.files = empty_slots(n);
                    self.section = Section::FileList;
                    return Ok(());
                },
                None => return Err(parse_error("FILELIST before FILECOUNT")),
            }
        }
        let (key, value) = match crate::text::split_at_char(line, ' ') {
            Some(p) => p,
            None => return Err(parse_error("invalid gallery header line")),
        };
        if crate::text::str_eq(key.as_str(), "GID") && self.gid.is_none() {
            match parse_positive(value.as_str(), "gid") {
                Ok(n) => {
                    self.gid = Some(n);
                    return Ok(());
                },
                Err(e) => return Err(e),
            }
        }
        if crate::text::str_eq(key.as_str(), "FILECOUNT") && self.count.is_none() {
            match parse_positive(value.as_str(), "filecount") {
                Ok(n) => {
                    if n as usize > MAX_GALLERY_FILES {
                        return Err(parse_error("gallery filecount exceeds limit"));
                    }
                    self.count = Some(n as usize);
                    return Ok(());
                },
                Err(e) => return Err(e),
            }
        }
        if crate::text::str_eq(key.as_str(), "MINXRES") && self.minxres.is_none() && valid_xres(
            value.as_str(),
        ) {
            self.minxres = Some(value);
            return Ok(());
        }
        if crate::text::str_eq(key.as_str(), "TITLE") && self.title.is_none() {
            self.title = Some(sanitize_title(value.as_str()));
            return Ok(());
        }
        Err(HathError::Parse(crate::text::concat("invalid gallery header key: ", key.as_str())))
    }

    fn read_file(&mut self, line: &str) -> (r: Result<(), HathError>)
        requires
            old(self)@.section == Section::FileList,
        ensures
            match r {
                Ok(()) => list_line(old(self)@, line@) == Ok::<Reading, ErrorView>(final(self)@),
                Err(e) => list_line(old(self)@, line@) == Err::<Reading, ErrorView>(e@),
            },
    {
        if line.is_empty() {
            return Ok(());
        }
        if crate::text::str_eq(line, "INFORMATION") {
            self.section = Section::Information;
            return Ok(());
        }
        let entry = match parse_file_line(line) {
            Ok(f) => f,
            Err(e) => return Err(e),
        };
        if entry.page as usize > self.files.len() {
            return Err(parse_error("gallery page is out of range"));
        }
        assert(entry.page > 0);
        let ghost before = self@;
        let slot: usize = entry.page as usize - 1;
        let name = gallery_file_name(&entry);
        let ghost view = entry@;
        if !self.names.insert(name) {
            return Err(parse_error("gallery contains duplicate output filename"));
        }
        let taken = self.files[slot].is_some();
        assert(slot_views(self.files@)[slot as int] == slot_view(self.files@[slot as int]));
        if taken {
            return Err(parse_error("gallery contains duplicate page"));
        }
        self.files.set(slot, Some(entry));
        assert(slot_views(self.files@) =~= before.files.update(slot as int, Some(view)));
        Ok(())
    }

    fn read_line(&mut self, line: &str) -> (r: Result<(), HathError>)
        ensures
            match r {
                Ok(()) => line_read(old(self)@, line@) == Ok::<Reading, ErrorView>(final(self)@),
                Err(e) => line_read(old(self)@, line@) == Err::<Reading, ErrorView>(e@),
            },
    {
        match self.section {
            Section::Header => self.read_header(line),
            Section::FileList => self.read_file(line),
            Section::Information => {
                let ghost before = self.information@;
                self.information.append(line);
                self.information.push('\n');
                assert(self.information@ =~= before + line@ + seq!['\n']);
                Ok(())
            },
        }
    }

    fn finish(self) -> (r: Result<GalleryMetadata, HathError>)
        ensures
            match r {
                Ok(m) => gallery_of(self@) == Ok::<MetadataView, ErrorView>(m@),
                Err(e) => gallery_of(self@) == Err::<MetadataView, ErrorView>(e@),
            },
    {
        let ghost read = self@;
        let gid: u32 = match self.gid {
            Some(n) => n,
            None => return Err(parse_error("gallery has no gid")),
        };
        let minxres = match self.minxres {
            Some(s) => s,
            None => return Err(parse_error("gallery has no minxres")),
        };
        let title = match self.title {
            Some(s) => s,
            None => return Err(parse_error("gallery has no title")),
        };
        let count: usize = match self.count {
            Some(n) => n,
            None => return Err(parse_error("gallery has no filecount")),
        };
        match self.section {
            Section::Information => {},
            _ => return Err(parse_error("gallery has no INFORMATION section")),
        }
        if self.files.len() != count {
            return Err(parse_error("gallery file list is incomplete"));
        }
        let mut slots = self.files;
        let ghost all = slots@;
        let mut files: Vec<GalleryFile> = Vec::new();
        let mut i: usize = 0;
        while i < count
            invariant
                i <= count,
                slots@.len() == count,
                all.len() == count,
                read.files == slot_views(all),
                read.gid is Some,
                read.minxres is Some,
                read.title is Some,
                read.count == Some(count),
                read.section == Section::Information,
                forall|j: int| i <= j < count ==> (#[trigger] slots@[j]) == all[j],
                files@.len() == i,
                forall|j: int| 0 <= j < i ==> #[trigger] slot_view(all[j]) == Some(files@[j]@),
                read == self@,
            decreases count - i,
        {
            let mut slot: Option<GalleryFile> = None;
            std::mem::swap(&mut slot, &mut slots[i]);
            match slot {
                Some(f) => files.push(f),
                None => {
                    assert(read.files[i as int] is None);
                    return Err(parse_error("gallery file list is incomplete"));
                },
            }
            i += 1;
        }
        proof {
            assert forall|j: int| 0 <= j < read.files.len() implies (#[trigger] read.files[j]) is Some by {
                assert(slot_view(all[j]) == Some(files@[j]@));
            }
            assert forall|j: int| 0 <= j < count implies (#[trigger] file_views(files@)[j])
                == read.files[j]->0 by {
                assert(slot_view(all[j]) == Some(files@[j]@));
            }
            assert(file_views(files@) =~= Seq::new(read.files.len(), |i: int| read.files[i]->0));
        }
        Ok(GalleryMetadata { gid, minxres, title, information: self.information, files })
    }
}

proof fn lemma_lines_err(lines: Seq<Seq<char>>, k: int)
    requires
        0 <= k <= lines.len(),
        lines_read(lines.take(k)) is Err,
    ensures
        lines_read(lines) == lines_read(lines.take(k)),
    decreases lines.len(),
{
    if k < lines.len() {
        let shorter = lines.drop_last();
        assert(shorter.take(k) =~= lines.take(k));
        lemma_lines_err(shorter, k);
    } else {
        assert(lines.take(k) =~= lines);
    }
}

/// Reads a metadata document.
pub fn parse_gallery_metadata(raw: &str) -> (r: Result<GalleryMetadata, HathError>)
    ensures
        match r {
            Ok(m) => parsed_gallery(raw@) == Ok::<MetadataView, ErrorView>(m@),
            Err(e) => parsed_gallery(raw@) == Err::<MetadataView, ErrorView>(e@),
        },
{
    let lines = crate::text::split_lines(raw);
    let ghost all = crate::text::texts(lines@);
    let mut reader = Reader {
        section: Section::Header,
        gid: None,
        count: None,
        minxres: None,
        title: None,
        files: Vec::new(),
        names: vstd::hash_set::StringHashSet::new(),
        information: String::new(),
    };
    assert(slot_views(reader.files@) =~= seq![]);
    assert(all.take(0) =~= seq![]);
    let mut i: usize = 0;
    while i < lines.len()
        invariant
            i <= lines.len(),
            all == crate::text::texts(lines@),
            all == crate::text::lines(raw@),
            lines_read(all.take(i as int)) == Ok::<Reading, ErrorView>(reader@),
        decreases lines.len() - i,
    {
        assert(all.take(i + 1).drop_last() =~= all.take(i as int));
        assert(all.take(i + 1).last() == lines@[i as int]@);
        match reader.read_line(lines[i].as_str()) {
            Ok(()) => {},
            Err(e) => {
                proof {
                    lemma_lines_err(all, i + 1);
                }
                return Err(e);
            },
        }
        i += 1;
    }
    assert(all.take(i as int) =~= all);
    reader.finish()
}

// ---------------------------------------------------------------------------
// Names
// ---------------------------------------------------------------------------

/// What stands behind the title in the name of a gallery's directory.
pub open spec fn dir_suffix(gid: u32, minxres: Seq<char>) -> Seq<char> {
    if minxres == "org"@ {
        " ["@ + crate::number::decimal(gid as nat) + "]"@
    } else {
        " ["@ + crate::number::decimal(gid as nat) + "-"@ + minxres + "x]"@
    }
}

/// The title and the suffix, in at most `max` characters where the suffix and three dots
/// fit: a title that is too long is cut and gets three dots.
pub open spec fn primary_dir(title: Seq<char>, gid: u32, minxres: Seq<char>, max: u32) -> Seq<char> {
    let suffix = dir_suffix(gid, minxres);
    if title.len() + suffix.len() > max {
        let keep = if max > suffix.len() + 3 {
            max - (suffix.len() + 3)
        } else {
            0
        };
        let cut = if keep < title.len() {
            title.take(keep)
        } else {
            title
        };
        cut + "..."@ + suffix
    } else {
        title + suffix
    }
}

/// The name without the title, for where the other one cannot be made.
pub open spec fn fallback_dir(gid: u32, minxres: Seq<char>) -> Seq<char> {
    if minxres == "org"@ {
        crate::number::decimal(gid as nat)
    } else {
        crate::number::decimal(gid as nat) + "-"@ + minxres + "x"@
    }
}

/// The name of a gallery's directory keeps to the limit wherever the suffix and three dots
/// do.
pub proof fn primary_dir_keeps_to_the_limit(
    title: Seq<char>,
    gid: u32,
    minxres: Seq<char>,
    max: u32,
)
    requires
        dir_suffix(gid, minxres).len() + 3 <= max,
    ensures
        primary_dir(title, gid, minxres, max).len() <= max,
{
    reveal_strlit("...");
}

/// The directory of a gallery is named by its title and, in square brackets, its number and,
/// where that is not the original, the resolution; a name that is longer than the limit begins
/// as the title does and has three dots before the brackets, in as many characters as the limit
/// allows.
pub proof fn directories_are_named(title: Seq<char>, gid: u32, k: nat, max: u32)
    ensures
        ({
            let n = crate::number::decimal(gid as nat);
            let x = crate::number::decimal(k);
            let org = seq![' ', '['] + n + seq![']'];
            let small = seq![' ', '['] + n + seq!['-'] + x + seq!['x', ']'];
            &&& title.len() + org.len() <= max ==> primary_dir(title, gid, "org"@, max) == title + org
            &&& title.len() + small.len() <= max ==> primary_dir(title, gid, x, max) == title + small
            &&& title.len() + org.len() > max >= org.len() + 3 ==> {
                &&& primary_dir(title, gid, "org"@, max) == title.take(max - org.len() - 3) + seq!['.', '.', '.']
                    + org
                &&& primary_dir(title, gid, "org"@, max).len() == max
            }
            &&& title.len() + small.len() > max >= small.len() + 3 ==> {
                &&& primary_dir(title, gid, x, max) == title.take(max - small.len() - 3) + seq!['.', '.', '.']
                    + small
                &&& primary_dir(title, gid, x, max).len() == max
            }
            &&& fallback_dir(gid, "org"@) == n
            &&& fallback_dir(gid, x) == n + seq!['-'] + x + seq!['x']
        }),
{
    let n = crate::number::decimal(gid as nat);
    let x = crate::number::decimal(k);
    let org = seq![' ', '['] + n + seq![']'];
    let small = seq![' ', '['] + n + seq!['-'] + x + seq!['x', ']'];
    crate::number::lemma_decimal(k);
    assert(crate::number::is_digit(x[0]));
    reveal_strlit("org");
    reveal_strlit(" [");
    reveal_strlit("]");
    reveal_strlit("-");
    reveal_strlit("x]");
    reveal_strlit("x");
    reveal_strlit("...");
    assert("org"@[0] == 'o');
    assert(x != "org"@);
    assert("..."@ =~= seq!['.', '.', '.']);
    assert(dir_suffix(gid, "org"@) =~= org);
    assert(dir_suffix(gid, x) =~= small);
    assert(fallback_dir(gid, x) =~= n + seq!['-'] + x + seq!['x']);
}

/// The paths where a gallery's directory is made, in the order in which they are tried.
pub fn gallery_dirs(config: &Config, metadata: &GalleryMetadata) -> (r: (String, String))
    ensures
        r.0@ == crate::utils::joined(
            config.download_dir@,
            primary_dir(metadata.title@, metadata.gid, metadata.minxres@, config.max_filename_length),
        ),
        r.1@ == crate::utils::joined(
            config.download_dir@,
            fallback_dir(metadata.gid, metadata.minxres@),
        ),
{
    let original = crate::text::str_eq(metadata.minxres.as_str(), "org");
    let mut suffix = String::from_str(" [");
    crate::number::push_decimal(&mut suffix, metadata.gid as u64);
    let mut fallback = crate::number::decimal_string(metadata.gid as u64);
    if original {
        suffix.append("]");
    } else {
        suffix.append("-");
        suffix.append(metadata.minxres.as_str());
        suffix.append("x]");
        fallback.append("-");
        fallback.append(metadata.minxres.as_str());
        fallback.append("x");
    }
    let title = crate::text::to_chars(metadata.title.as_str());
    let suffix_chars = crate::text::to_chars(suffix.as_str());
    let max: u64 = config.max_filename_length as u64;
    let title_len: u64 = title.len() as u64;
    let suffix_len: u64 = suffix_chars.len() as u64;
    let mut name = if title_len > max || suffix_len > max - title_len {
        let keep: u64 = if suffix_len < max && max - suffix_len > 3 {
            max - suffix_len - 3
        } else {
            0
        };
        let cut: usize = if keep < title_len {
            keep as usize
        } else {
            title.len()
        };
        let mut short = crate::text::substring(&title, 0, cut);
        assert(short@ =~= title@.take(cut as int));
        assert(title@.take(title@.len() as int) =~= title@);
        short.append("...");
        short
    } else {
        metadata.title.clone()
    };
    name.append(suffix.as_str());
    (
        crate::utils::join_path(config.download_dir.as_str(), name.as_str()),
        crate::utils::join_path(config.download_dir.as_str(), fallback.as_str()),
    )
}

/// The hidden file to which a file of that directory is written before it is complete.
pub fn part_path(dir: &str, filename: &str) -> (r: String)
    ensures
        r@ == crate::utils::joined(dir@, "."@ + filename@ + ".part"@),
{
    let mut out = String::from_str(".");
    out.append(filename);
    out.append(".part");
    crate::utils::join_path(dir, out.as_str())
}

/// How a failed source is reported: its host, the file and the resolution.
pub fn source_failure_key(source: &str, file: &GalleryFile) -> (r: Option<String>)
    ensures
        crate::text::opt_text(r) == (match crate::url::url_host(source@) {
            Some(host) => Some(
                host + "-"@ + crate::number::decimal(file.fileindex as nat) + "-"@ + file.xres@,
            ),
            None => None,
        }),
{
    failure_key(crate::url::host_str(source), file)
}

/// How a failed source is reported whose host is the given one.
pub fn failure_key(host: Option<String>, file: &GalleryFile) -> (r: Option<String>)
    ensures
        crate::text::opt_text(r) == (match host {
            Some(host) => Some(
                host@ + "-"@ + crate::number::decimal(file.fileindex as nat) + "-"@ + file.xres@,
            ),
            None => None,
        }),
{
    match host {
        Some(host) => {
            let mut out = host;
            out.append("-");
            crate::number::push_decimal(&mut out, file.fileindex as u64);
            out.append("-");
            out.append(file.xres.as_str());
            Some(out)
        },
        None => None,
    }
}

/// Whether there is too little space for a gallery. Where the space is not known there is.
pub fn has_low_space(config: &Config, available: Option<u64>) -> (r: bool)
    ensures
        r == (!config.skip_free_space_check && match available {
            Some(space) => space < config.diskremaining_bytes + 1_048_576_000 && space < u64::MAX,
            None => true,
        }),
{
    if config.skip_free_space_check {
        return false;
    }
    match available {
        Some(space) => {
            let minimum: u64 = if config.diskremaining_bytes > u64::MAX - 1_048_576_000 {
                u64::MAX
            } else {
                config.diskremaining_bytes + 1_048_576_000
            };
            space < minimum
        },
        None => true,
    }
}

/// Whether a transferred file is kept: it is not empty, and its digest is the expected one
/// where one is known.
pub fn file_is_verified(content_length: i32, expected: &Option<Sha1Hash>, digest: &str) -> (r: bool)
    ensures
        r == (content_length > 0 && match expected {
            Some(h) => digest@ == h@,
            None => true,
        }),
{
    content_length > 0 && match expected {
        Some(h) => crate::text::str_eq(digest, h.as_str()),
        None => true,
    }
}

/// Whether a file that is already there counts as downloaded.
pub fn existing_file_is_valid(is_file: bool, length: u64, expected: &Option<Sha1Hash>, digest: &str)
    -> (r: bool)
    ensures
        r == (is_file && length > 0 && match expected {
            Some(h) => digest@ == h@,
            None => true,
        }),
{
    is_file && length > 0 && match expected {
        Some(h) => crate::text::str_eq(digest, h.as_str()),
        None => true,
    }
}

// ---------------------------------------------------------------------------
// The order of downloads
// ---------------------------------------------------------------------------

/// What came of one attempt at a file.
#[derive(Debug)]
pub enum DownloadOne {
    Downloaded,
    AlreadyPresent,
    /// It failed; the source is named where there was one.
    Failed(Option<String>),
}

/// How far the files of a gallery have come.
#[derive(Debug)]
pub struct GalleryProgress {
    pub complete: Vec<bool>,
    pub attempts: Vec<u32>,
    pub total_failures: usize,
    pub source_failures: Vec<String>,
    pub round: u32,
    /// The file that the round goes on with.
    pub index: usize,
}

/// The first file from `from` on that is not complete, or the number of files.
pub open spec fn next_incomplete(complete: Seq<bool>, from: int) -> int
    decreases complete.len() - from,
{
    if 0 <= from < complete.len() && complete[from] {
        next_incomplete(complete, from + 1)
    } else {
        from
    }
}

/// Whether all files are complete.
pub open spec fn all_complete(complete: Seq<bool>) -> bool {
    forall|i: int| 0 <= i < complete.len() ==> #[trigger] complete[i]
}

/// Whether no further round is begun: ten were, or all files are complete, or there were
/// twice as many failures as files.
pub open spec fn is_over(complete: Seq<bool>, failures: int, rounds: int) -> bool {
    rounds >= MAX_GALLERY_ROUNDS || all_complete(complete) || failures >= 2 * complete.len()
}

/// A list with one more failure, where it is not full and does not hold it.
pub open spec fn with_failure(list: Seq<Seq<char>>, failure: Option<Seq<char>>) -> Seq<Seq<char>> {
    match failure {
        Some(f) => if list.len() < MAX_REPORTED_FAILURES && !list.contains(f) {
            list.push(f)
        } else {
            list
        },
        None => list,
    }
}

/// A source that failed is added to the list of failures where it is not on it yet and fewer
/// than fifty are; the list is never shortened and never holds a source twice.
pub proof fn failures_are_listed_once(list: Seq<Seq<char>>, failure: Seq<char>)
    requires
        list.no_duplicates(),
    ensures
        ({
            let after = with_failure(list, Some(failure));
            &&& list.is_prefix_of(after)
            &&& after.no_duplicates()
            &&& list.len() < 50 ==> after.contains(failure)
            &&& list.len() >= 50 ==> after == list
            &&& after.len() <= list.len() + 1
            &&& forall|f: Seq<char>| #[trigger] after.contains(f) ==> list.contains(f) || f == failure
            &&& with_failure(after, Some(failure)) == after
            &&& with_failure(list, None) == list
        }),
{
    let after = with_failure(list, Some(failure));
    if list.len() < 50 && !list.contains(failure) {
        assert(after.last() == failure);
        assert(after[after.len() - 1] == failure);
        assert forall|i: int, j: int| 0 <= i < after.len() && 0 <= j < after.len() && i != j implies after[i]
            != after[j] by {
            if i < list.len() {
                assert(list.contains(list[i]));
            }
            if j < list.len() {
                assert(list.contains(list[j]));
            }
        }
        assert forall|f: Seq<char>| #[trigger] after.contains(f) implies list.contains(f) || f == failure by {
            let i = choose|i: int| 0 <= i < after.len() && after[i] == f;
            if i < list.len() {
                assert(list[i] == f);
            }
        }
    }
}

proof fn lemma_next_incomplete(complete: Seq<bool>, from: int)
    requires
        0 <= from <= complete.len(),
    ensures
        from <= next_incomplete(complete, from) <= complete.len(),
        forall|i: int| from <= i < next_incomplete(complete, from) ==> complete[i],
        next_incomplete(complete, from) < complete.len() ==> !complete[next_incomplete(complete, from)],
    decreases complete.len() - from,
{
    if from < complete.len() && complete[from] {
        lemma_next_incomplete(complete, from + 1);
    }
}

impl GalleryProgress {
    /// The lists are about the same files, the round is one of those that are begun, each file
    /// was tried at most once in each round so far, and the failures to report are few and
    /// different.
    pub open spec fn wf(&self) -> bool {
        &&& self.complete@.len() == self.attempts@.len()
        &&& 0 < self.complete@.len() <= MAX_GALLERY_FILES
        &&& self.index <= self.complete@.len()
        &&& self.round < MAX_GALLERY_ROUNDS
        &&& forall|i: int|
            0 <= i < self.attempts@.len() ==> #[trigger] self.attempts@[i] <= self.round + (if i
                < self.index {
                1int
            } else {
                0
            })
        &&& self.source_failures@.len() <= MAX_REPORTED_FAILURES
        &&& crate::text::texts(self.source_failures@).no_duplicates()
    }

    /// Nothing is done yet.
    pub fn new(files: usize) -> (r: Self)
        requires
            0 < files <= MAX_GALLERY_FILES,
        ensures
            r.wf(),
            r.complete@ == Seq::new(files as nat, |i: int| false),
            r.attempts@ == Seq::new(files as nat, |i: int| 0u32),
            r.total_failures == 0,
            r.source_failures@.len() == 0,
            r.round == 0,
            r.index == 0,
    {
        let complete = vec![false; files];
        let attempts = vec![0u32; files];
        assert(complete@ =~= Seq::new(files as nat, |i: int| false));
        assert(attempts@ =~= Seq::new(files as nat, |i: int| 0u32));
        GalleryProgress {
            complete,
            attempts,
            total_failures: 0,
            source_failures: Vec::new(),
            round: 0,
            index: 0,
        }
    }

    fn find_incomplete(&self, from: usize) -> (r: usize)
        requires
            from <= self.complete@.len(),
        ensures
            r == next_incomplete(self.complete@, from as int),
            from <= r <= self.complete@.len(),
    {
        proof {
            lemma_next_incomplete(self.complete@, from as int);
        }
        let mut i: usize = from;
        while i < self.complete.len() && self.complete[i]
            invariant
                from <= i <= self.complete@.len(),
                next_incomplete(self.complete@, i as int) == next_incomplete(
                    self.complete@,
                    from as int,
                ),
            decreases self.complete@.len() - i,
        {
            i += 1;
        }
        i
    }

    /// The file that is tried next: the next one of this round that is not complete, else the
    /// first such of another round, unless the download is over. Each round goes over every
    /// file once.
    pub fn next_file(&mut self) -> (r: Option<usize>)
        requires
            old(self).wf(),
        ensures
            final(self).complete@ == old(self).complete@,
            final(self).attempts@ == old(self).attempts@,
            final(self).total_failures == old(self).total_failures,
            final(self).source_failures@ == old(self).source_failures@,
            final(self).wf(),
            r matches Some(i) ==> final(self).may_try(i),
            r matches Some(i) ==> i < old(self).complete@.len() && !old(self).complete@[i as int],
            r is Some && final(self).round == old(self).round ==> forall|j: int|
                old(self).index <= j < r->0 ==> #[trigger] old(self).complete@[j],
            r is Some && final(self).round != old(self).round ==> {
                &&& final(self).round == old(self).round + 1
                &&& forall|j: int|
                    0 <= j < r->0 || old(self).index <= j < old(self).complete@.len()
                        ==> #[trigger] old(self).complete@[j]
            },
            r is None ==> {
                ||| old(self).round + 1 >= 10
                ||| old(self).total_failures >= 2 * old(self).complete@.len()
                ||| forall|j: int| 0 <= j < old(self).complete@.len() ==> #[trigger] old(self).complete@[j]
            },
            ({
                let n = old(self).complete@.len();
                let here = next_incomplete(old(self).complete@, old(self).index as int);
                let there = next_incomplete(old(self).complete@, 0);
                if here < n {
                    r == Some(here as usize) && final(self).index == here + 1 && final(self).round == old(
                        self).round
                } else if is_over(
                    old(self).complete@,
                    old(self).total_failures as int,
                    old(self).round + 1,
                ) {
                    r is None && final(self).index == old(self).index && final(self).round == old(
                        self).round
                } else {
                    r == Some(there as usize) && there < n && final(self).index == there + 1 && final(
                        self).round == old(self).round + 1
                }
            }),
    {
        let n: usize = self.complete.len();
        let here = self.find_incomplete(self.index);
        proof {
            lemma_next_incomplete(self.complete@, self.index as int);
        }
        if here < n {
            self.index = here + 1;
            return Some(here);
        }
        let there = self.find_incomplete(0);
        proof {
            lemma_next_incomplete(self.complete@, 0);
            if there < n {
                assert(!self.complete@[there as int]);
                assert(!all_complete(self.complete@));
            } else {
                assert(all_complete(self.complete@));
            }
        }
        if self.round + 1 >= MAX_GALLERY_ROUNDS || there == n || self.total_failures >= 2 * n {
            return None;
        }
        self.round = self.round + 1;
        self.index = there + 1;
        Some(there)
    }

    /// Whether a file is next to be tried: this round has come to it, and it was not tried yet
    /// in this round.
    pub open spec fn may_try(&self, index: usize) -> bool {
        index < self.index && index < self.attempts@.len() && self.attempts@[index as int] <= self.round
    }

    /// Counts an attempt at a file; says which one it is.
    pub fn begin_attempt(&mut self, index: usize) -> (r: u32)
        requires
            old(self).wf(),
            old(self).may_try(index),
        ensures
            final(self).wf(),
            r == old(self).attempts@[index as int] + 1,
            final(self).attempts@ == old(self).attempts@.update(index as int, r),
            final(self).complete@ == old(self).complete@,
            final(self).total_failures == old(self).total_failures,
            final(self).source_failures@ == old(self).source_failures@,
            final(self).round == old(self).round,
            final(self).index == old(self).index,
    {
        let n: u32 = self.attempts[index] + 1;
        self.attempts.set(index, n);
        n
    }

    /// Takes what came of an attempt; returns the pause behind it in seconds.
    pub fn record(&mut self, index: usize, outcome: DownloadOne) -> (r: u64)
        requires
            old(self).wf(),
            index < old(self).complete@.len(),
            old(self).total_failures < usize::MAX,
        ensures
            final(self).wf(),
            final(self).attempts@ == old(self).attempts@,
            final(self).round == old(self).round,
            final(self).index == old(self).index,
            match outcome {
                DownloadOne::Downloaded => r == SUCCESS_DELAY && final(self).complete@ == old(
                    self).complete@.update(index as int, true) && final(self).total_failures == old(
                    self).total_failures && final(self).source_failures@ == old(self).source_failures@,
                DownloadOne::AlreadyPresent => r == 0 && final(self).complete@ == old(
                    self).complete@.update(index as int, true) && final(self).total_failures == old(
                    self).total_failures && final(self).source_failures@ == old(self).source_failures@,
                DownloadOne::Failed(source) => r == FAILURE_DELAY && final(self).complete@ == old(
                    self).complete@ && final(self).total_failures == old(self).total_failures + 1
                    && crate::text::texts(final(self).source_failures@) == with_failure(
                    crate::text::texts(old(self).source_failures@),
                    crate::text::opt_text(source),
                ),
            },
    {
        match outcome {
            DownloadOne::Downloaded => {
                self.complete.set(index, true);
                SUCCESS_DELAY
            },
            DownloadOne::AlreadyPresent => {
                self.complete.set(index, true);
                0
            },
            DownloadOne::Failed(source) => {
                self.total_failures = self.total_failures + 1;
                let ghost before = crate::text::texts(self.source_failures@);
                match source {
                    Some(failure) => {
                        if self.source_failures.len() < MAX_REPORTED_FAILURES && !crate::text::holds(
                            &self.source_failures,
                            failure.as_str(),
                        ) {
                            self.source_failures.push(failure);
                            proof {
                                let after = crate::text::texts(self.source_failures@);
                                assert(after =~= before.push(failure@));
                                assert forall|i: int, j: int|
                                    0 <= i < after.len() && 0 <= j < after.len() && i
                                        != j implies after[i] != after[j] by {
                                    if i < before.len() {
                                        assert(before.contains(before[i]));
                                    }
                                    if j < before.len() {
                                        assert(before.contains(before[j]));
                                    }
                                }
                            }
                        }
                    },
                    None => {},
                }
                FAILURE_DELAY
            },
        }
    }

    /// Whether every file is complete.
    pub fn is_successful(&self) -> (r: bool)
        ensures
            r == all_complete(self.complete@),
    {
        let i = self.find_incomplete(0);
        proof {
            lemma_next_incomplete(self.complete@, 0);
            if i < self.complete@.len() {
                assert(!self.complete@[i as int]);
            }
        }
        i == self.complete.len()
    }
}

/// A file is tried at most ten times.
pub proof fn files_are_tried_ten_times_at_most(progress: GalleryProgress, index: int)
    requires
        progress.wf(),
        0 <= index < progress.attempts@.len(),
    ensures
        progress.attempts@[index] <= 10,
{
}

/// The way that an attempt at a file goes.
#[derive(Debug, Clone, Copy, PartialEq, Eq, Structural)]
pub enum Route {
    Direct,
    Proxied,
}

/// The way that an attempt at a file goes: the first one direct, later ones through the proxy.
pub fn attempt_route(attempt: u32) -> (r: Route)
    ensures
        r == (if attempt == 1 {
            Route::Direct
        } else {
            Route::Proxied
        }),
{
    if attempt == 1 {
        Route::Direct
    } else {
        Route::Proxied
    }
}

/// The bytes per second that downloads of galleries are limited to, where they are.
pub fn gallery_limit(config: &Config) -> (r: Option<u32>)
    ensures
        r == (if !config.disable_download_bwm && config.throttle_bytes > 0 {
            Some(config.throttle_bytes)
        } else {
            None
        }),
{
    if !config.disable_download_bwm && config.throttle_bytes > 0 {
        Some(config.throttle_bytes)
    } else {
        None
    }
}

/// A complete file is not tried again, and the download ends only with all files complete
/// or its budget spent.
pub proof fn only_incomplete_files_are_tried(complete: Seq<bool>, index: int, failures: int, round: int)
    requires
        0 <= index <= complete.len(),
    ensures
        next_incomplete(complete, index) < complete.len() ==> !complete[next_incomplete(
            complete,
            index,
        )],
        next_incomplete(complete, index) == complete.len() && !is_over(complete, failures, round) ==> ({
            let i = next_incomplete(complete, 0);
            &&& i < complete.len()
            &&& !complete[i]
        }),
{
    lemma_next_incomplete(complete, index);
    lemma_next_incomplete(complete, 0);
    if next_incomplete(complete, 0) >= complete.len() {
        assert(all_complete(complete));
    }
}

/// What is done with the answer of the gallery queue.
pub enum QueueStep {
    /// The queue is empty: the run ends.
    Idle,
    /// The server refused the request.
    Rejected(HathError),
    /// The metadata cannot be used: the run ends.
    Malformed(HathError),
    Download(GalleryMetadata),
}

/// What is done with the answer of the gallery queue.
pub fn next_queue_step(reply: GalleryQueueReply) -> (r: QueueStep)
    ensures
        match reply {
            GalleryQueueReply::NoPendingDownloads => r is Idle,
            GalleryQueueReply::InvalidRequest => r matches QueueStep::Rejected(e) && e@ == ErrorView::Rpc(
                "gallery queue rejected request"@,
            ),
            GalleryQueueReply::Metadata(raw) => match parsed_gallery(raw@) {
                Ok(m) => r matches QueueStep::Download(d) && d@ == m,
                Err(e) => r matches QueueStep::Malformed(f) && f@ == e,
            },
        },
{
    match reply {
        GalleryQueueReply::NoPendingDownloads => QueueStep::Idle,
        GalleryQueueReply::InvalidRequest => QueueStep::Rejected(
            HathError::Rpc(String::from_str("gallery queue rejected request")),
        ),
        GalleryQueueReply::Metadata(raw) => match parse_gallery_metadata(raw.as_str()) {
            Ok(m) => QueueStep::Download(m),
            Err(e) => QueueStep::Malformed(e),
        },
    }
}

/// What a run has done.
#[derive(Debug, Clone, Copy, PartialEq, Eq, Structural)]
pub struct GalleryRunReport {
    pub galleries_completed: u32,
    pub galleries_failed: u32,
}

impl GalleryRunReport {
    pub fn new() -> (r: Self)
        ensures
            r.galleries_completed == 0,
            r.galleries_failed == 0,
    {
        GalleryRunReport { galleries_completed: 0, galleries_failed: 0 }
    }

    /// Counts a gallery.
    pub fn count(&mut self, successful: bool)
        ensures
            final(self).galleries_completed == (if successful {
                old(self).galleries_completed.wrapping_add(1)
            } else {
                old(self).galleries_completed
            }),
            final(self).galleries_failed == (if successful {
                old(self).galleries_failed
            } else {
                old(self).galleries_failed.wrapping_add(1)
            }),
    {
        if successful {
            self.galleries_completed = self.galleries_completed.wrapping_add(1);
        } else {
            self.galleries_failed = self.galleries_failed.wrapping_add(1);
        }
    }
}

/// What is left of a gallery when its download has ended.
#[derive(Debug)]
pub struct FinishedGallery {
    pub ack: GalleryAck,
    pub successful: bool,
    pub failures: Vec<String>,
}

/// What is left of a gallery when its download has ended: the server is told of it with the
/// next request.
pub fn finished_gallery(metadata: &GalleryMetadata, progress: &GalleryProgress) -> (r: FinishedGallery)
    ensures
        r.ack.gid == metadata.gid,
        r.ack.minxres@ == metadata.minxres@,
        r.successful == all_complete(progress.complete@),
        crate::text::texts(r.failures@) == crate::text::texts(progress.source_failures@),
{
    FinishedGallery {
        ack: GalleryAck { gid: metadata.gid, minxres: metadata.minxres.clone() },
        successful: progress.is_successful(),
        failures: crate::text::copy_all(&progress.source_failures),
    }
}

/// Result of asking the on-demand supervisor to start work.
#[derive(Debug, Clone, Copy, PartialEq, Eq, Structural)]
pub enum StartOutcome {
    Started,
    AlreadyRunning,
}

/// Whether a run is started: not while one is active.
pub fn start_outcome(was_active: bool) -> (r: StartOutcome)
    ensures
        r == (if was_active {
            StartOutcome::AlreadyRunning
        } else {
            StartOutcome::Started
        }),
{
    if was_active {
        StartOutcome::AlreadyRunning
    } else {
        StartOutcome::Started
    }
}

} // verus!
