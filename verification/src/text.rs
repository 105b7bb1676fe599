//! Text as sequences of characters: searching, cutting, trimming and building strings.

use vstd::prelude::*;

verus! {

// ---------------------------------------------------------------------------
// Vocabulary
// ---------------------------------------------------------------------------

/// The strings of a vector, each as its characters.
pub open spec fn texts(v: Seq<String>) -> Seq<Seq<char>> {
    Seq::new(v.len(), |i: int| v[i]@)
}

/// The position of the first `c` in `s`, or the length of `s` where there is none.
pub open spec fn index_of(s: Seq<char>, c: char) -> int
    decreases s.len(),
{
    if s.len() == 0 {
        0
    } else if s[0] == c {
        0
    } else {
        1 + index_of(s.drop_first(), c)
    }
}

/// The text before and the text behind the first `c`, where there is one.
pub open spec fn split_once(s: Seq<char>, c: char) -> Option<(Seq<char>, Seq<char>)> {
    let i = index_of(s, c);
    if i < s.len() {
        Some((s.take(i), s.skip(i + 1)))
    } else {
        None
    }
}

/// The pieces between the occurrences of `c`.
pub open spec fn split(s: Seq<char>, c: char) -> Seq<Seq<char>>
    decreases s.len(),
{
    let i = index_of(s, c);
    if 0 <= i < s.len() {
        seq![s.take(i)] + split(s.skip(i + 1), c)
    } else {
        seq![s]
    }
}

/// A line without the carriage return at its end.
pub open spec fn without_cr(line: Seq<char>) -> Seq<char> {
    if line.len() > 0 && line.last() == '\r' {
        line.drop_last()
    } else {
        line
    }
}

/// The lines of a text: each is ended by a newline, which may follow a carriage
/// return; the last one need not be ended.
pub open spec fn lines(s: Seq<char>) -> Seq<Seq<char>>
    decreases s.len(),
{
    let i = index_of(s, '\n');
    if s.len() == 0 {
        seq![]
    } else if 0 <= i < s.len() {
        seq![without_cr(s.take(i))] + lines(s.skip(i + 1))
    } else {
        seq![s]
    }
}

/// The white space of Unicode.
pub open spec fn is_space(c: char) -> bool {
    let n = c as int;
    ||| 0x9 <= n <= 0xd
    ||| n == 0x20
    ||| n == 0x85
    ||| n == 0xa0
    ||| n == 0x1680
    ||| 0x2000 <= n <= 0x200a
    ||| n == 0x2028
    ||| n == 0x2029
    ||| n == 0x202f
    ||| n == 0x205f
    ||| n == 0x3000
}

/// `s` without the white space in front.
pub open spec fn trim_start(s: Seq<char>) -> Seq<char>
    decreases s.len(),
{
    if s.len() > 0 && is_space(s[0]) {
        trim_start(s.drop_first())
    } else {
        s
    }
}

/// `s` without the white space at its end.
pub open spec fn trim_end(s: Seq<char>) -> Seq<char>
    decreases s.len(),
{
    if s.len() > 0 && is_space(s.last()) {
        trim_end(s.drop_last())
    } else {
        s
    }
}

/// `s` without the white space on either side.
pub open spec fn trim(s: Seq<char>) -> Seq<char> {
    trim_end(trim_start(s))
}

// ---------------------------------------------------------------------------
// Facts
// ---------------------------------------------------------------------------

pub proof fn lemma_index_of(s: Seq<char>, c: char)
    ensures
        0 <= index_of(s, c) <= s.len(),
        forall|j: int| 0 <= j < index_of(s, c) ==> s[j] != c,
        index_of(s, c) < s.len() ==> s[index_of(s, c)] == c,
    decreases s.len(),
{
    if s.len() > 0 && s[0] != c {
        lemma_index_of(s.drop_first(), c);
        assert forall|j: int| 0 <= j < index_of(s, c) implies s[j] != c by {
            if j > 0 {
                assert(s[j] == s.drop_first()[j - 1]);
            }
        }
    }
}

pub proof fn lemma_index_is(s: Seq<char>, c: char, i: int)
    requires
        0 <= i <= s.len(),
        forall|j: int| 0 <= j < i ==> s[j] != c,
        i < s.len() ==> s[i] == c,
    ensures
        index_of(s, c) == i,
{
    lemma_index_of(s, c);
}

// ---------------------------------------------------------------------------
// Executable operations
// ---------------------------------------------------------------------------

/// `String::push` puts the character behind the text.
pub assume_specification[ String::push ](s: &mut String, c: char)
    ensures
        final(s)@ == old(s)@.push(c),
;

/// The characters of `s`.
pub fn to_chars(s: &str) -> (r: Vec<char>)
    ensures
        r@ == s@,
{
    let mut out: Vec<char> = Vec::new();
    for c in it: s.chars()
        invariant
            out@ == it.seq().take(it.index()),
            it.seq() == s@,
    {
        out.push(c);
    }
    out
}

/// The text made of the characters from `i` up to `j`.
pub fn substring(cs: &Vec<char>, i: usize, j: usize) -> (r: String)
    requires
        i <= j <= cs.len(),
    ensures
        r@ == cs@.subrange(i as int, j as int),
{
    let mut out = String::new();
    let mut k: usize = i;
    while k < j
        invariant
            i <= k <= j <= cs.len(),
            out@ == cs@.subrange(i as int, k as int),
        decreases j - k,
    {
        out.push(cs[k]);
        k += 1;
    }
    out
}

/// Whether two texts are equal.
pub fn str_eq(a: &str, b: &str) -> (r: bool)
    ensures
        r == (a@ == b@),
{
    let x = a.as_bytes();
    let y = b.as_bytes();
    if x.len() != y.len() {
        return false;
    }
    let mut i: usize = 0;
    while i < x.len()
        invariant
            x@ == vstd::utf8::encode_utf8(a@),
            y@ == vstd::utf8::encode_utf8(b@),
            x@.len() == y@.len(),
            i <= x.len(),
            forall|j: int| 0 <= j < i ==> x@[j] == y@[j],
        decreases x.len() - i,
    {
        if x[i] != y[i] {
            assert(x@[i as int] != y@[i as int]);
            return false;
        }
        i += 1;
    }
    assert(x@ =~= y@);
    proof {
        vstd::utf8::encode_utf8_decode_utf8(a@);
        vstd::utf8::encode_utf8_decode_utf8(b@);
    }
    true
}

/// The position of the first `c` at or behind `from`, or the length.
pub fn find_from(cs: &Vec<char>, from: usize, c: char) -> (r: usize)
    requires
        from <= cs.len(),
    ensures
        from <= r <= cs.len(),
        r == from + index_of(cs@.skip(from as int), c),
{
    let mut i: usize = from;
    while i < cs.len() && cs[i] != c
        invariant
            from <= i <= cs.len(),
            forall|j: int| from <= j < i ==> cs@[j] != c,
        decreases cs.len() - i,
    {
        i += 1;
    }
    proof {
        lemma_index_is(cs@.skip(from as int), c, i - from);
    }
    i
}

/// The text before and the text behind the first `c`.
pub fn split_at_char(s: &str, c: char) -> (r: Option<(String, String)>)
    ensures
        match r {
            Some(p) => split_once(s@, c) == Some((p.0@, p.1@)),
            None => split_once(s@, c) is None,
        },
{
    let cs = to_chars(s);
    let i = find_from(&cs, 0, c);
    assert(cs@.skip(0) =~= s@);
    if i < cs.len() {
        let a = substring(&cs, 0, i);
        let b = substring(&cs, i + 1, cs.len());
        assert(a@ =~= s@.take(i as int));
        assert(b@ =~= s@.skip(i + 1));
        Some((a, b))
    } else {
        None
    }
}

/// The pieces between the occurrences of `c`.
pub fn split_on(s: &str, c: char) -> (r: Vec<String>)
    ensures
        texts(r@) == split(s@, c),
{
    let cs = to_chars(s);
    let mut out: Vec<String> = Vec::new();
    let mut from: usize = 0;
    assert(cs@.skip(0) =~= s@);
    assert(texts(out@) =~= seq![]);
    loop
        invariant
            cs@ == s@,
            from <= cs.len(),
            texts(out@) + split(cs@.skip(from as int), c) == split(s@, c),
        decreases cs.len() - from,
    {
        let ghost before = texts(out@);
        let ghost rest = cs@.skip(from as int);
        let i = find_from(&cs, from, c);
        let piece = substring(&cs, from, i);
        assert(piece@ =~= rest.take(i - from));
        out.push(piece);
        assert(texts(out@) =~= before.push(piece@));
        if i == cs.len() {
            assert(rest.take(i - from) =~= rest);
            assert(texts(out@) =~= before + split(rest, c));
            return out;
        }
        assert(rest.skip(i - from + 1) =~= cs@.skip(i + 1));
        assert(texts(out@) + split(cs@.skip(i + 1), c) =~= before + split(rest, c));
        from = i + 1;
    }
}

/// The lines of `s`.
pub fn split_lines(s: &str) -> (r: Vec<String>)
    ensures
        texts(r@) == lines(s@),
{
    let cs = to_chars(s);
    let mut out: Vec<String> = Vec::new();
    let mut from: usize = 0;
    assert(cs@.skip(0) =~= s@);
    assert(texts(out@) =~= seq![]);
    while from < cs.len()
        invariant
            cs@ == s@,
            from <= cs.len(),
            texts(out@) + lines(cs@.skip(from as int)) == lines(s@),
        decreases cs.len() - from,
    {
        let ghost before = texts(out@);
        let ghost rest = cs@.skip(from as int);
        let i = find_from(&cs, from, '\n');
        if i == cs.len() {
            let piece = substring(&cs, from, i);
            assert(piece@ =~= rest);
            out.push(piece);
            assert(texts(out@) =~= before.push(piece@));
            from = i;
            assert(lines(cs@.skip(from as int)) =~= seq![]);
            assert(texts(out@) =~= before + lines(rest));
        } else {
            let end = if i > from && cs[i - 1] == '\r' {
                i - 1
            } else {
                i
            };
            let piece = substring(&cs, from, end);
            assert(piece@ =~= without_cr(rest.take(i - from)));
            out.push(piece);
            assert(texts(out@) =~= before.push(piece@));
            assert(rest.skip(i - from + 1) =~= cs@.skip(i + 1));
            from = i + 1;
            assert(texts(out@) + lines(cs@.skip(from as int)) =~= before + lines(rest));
        }
    }
    assert(lines(cs@.skip(from as int)) =~= seq![]);
    assert(texts(out@) =~= lines(s@));
    out
}

/// Whether `c` is white space.
pub fn char_is_space(c: char) -> (r: bool)
    ensures
        r == is_space(c),
{
    let n: u32 = c as u32;
    (0x9 <= n && n <= 0xd) || n == 0x20 || n == 0x85 || n == 0xa0 || n == 0x1680 || (0x2000 <= n
        && n <= 0x200a) || n == 0x2028 || n == 0x2029 || n == 0x202f || n == 0x205f || n == 0x3000
}

/// `s` without the white space on either side.
pub fn trimmed(s: &str) -> (r: String)
    ensures
        r@ == trim(s@),
{
    let cs = to_chars(s);
    let mut i: usize = 0;
    assert(cs@.skip(0) =~= cs@);
    while i < cs.len() && char_is_space(cs[i])
        invariant
            i <= cs.len(),
            trim_start(cs@.skip(i as int)) == trim_start(cs@),
        decreases cs.len() - i,
    {
        assert(cs@.skip(i as int).drop_first() =~= cs@.skip(i + 1));
        i += 1;
    }
    let mut j: usize = cs.len();
    assert(cs@.subrange(i as int, j as int) =~= cs@.skip(i as int));
    while j > i && char_is_space(cs[j - 1])
        invariant
            i <= j <= cs.len(),
            trim_end(cs@.subrange(i as int, j as int)) == trim_end(cs@.skip(i as int)),
        decreases j,
    {
        assert(cs@.subrange(i as int, j as int).drop_last() =~= cs@.subrange(i as int, j - 1));
        j -= 1;
    }
    substring(&cs, i, j)
}

/// Whether `s` begins with `prefix`.
pub fn has_prefix(s: &str, prefix: &str) -> (r: bool)
    ensures
        r == prefix@.is_prefix_of(s@),
{
    let x = to_chars(s);
    let y = to_chars(prefix);
    if y.len() > x.len() {
        return false;
    }
    let mut i: usize = 0;
    while i < y.len()
        invariant
            x@ == s@,
            y@ == prefix@,
            i <= y.len() <= x.len(),
            forall|j: int| 0 <= j < i ==> x@[j] == y@[j],
        decreases y.len() - i,
    {
        if x[i] != y[i] {
            assert(s@.subrange(0, prefix@.len() as int)[i as int] != prefix@[i as int]);
            return false;
        }
        i += 1;
    }
    assert(prefix@ =~= s@.subrange(0, prefix@.len() as int));
    true
}

/// The text behind `prefix`, where `s` begins with it.
pub fn after_prefix(s: &str, prefix: &str) -> (r: Option<String>)
    ensures
        match r {
            Some(rest) => prefix@.is_prefix_of(s@) && rest@ == s@.skip(prefix@.len() as int),
            None => !prefix@.is_prefix_of(s@),
        },
{
    if has_prefix(s, prefix) {
        let x = to_chars(s);
        let y = to_chars(prefix);
        let rest = substring(&x, y.len(), x.len());
        assert(rest@ =~= s@.skip(prefix@.len() as int));
        Some(rest)
    } else {
        None
    }
}

/// An ASCII capital as its small letter, any other character unchanged.
pub open spec fn ascii_lower_char(c: char) -> char {
    if 'A' <= c <= 'Z' {
        (c as u32 + 32) as char
    } else {
        c
    }
}

/// `s` with each ASCII capital as its small letter.
pub open spec fn ascii_lower(s: Seq<char>) -> Seq<char> {
    s.map_values(|c: char| ascii_lower_char(c))
}

pub fn char_to_ascii_lower(c: char) -> (r: char)
    ensures
        r == ascii_lower_char(c),
{
    if c >= 'A' && c <= 'Z' {
        ((c as u8) + 32) as char
    } else {
        c
    }
}

/// `s` with each ASCII capital as its small letter.
pub fn to_ascii_lower(s: &str) -> (r: String)
    ensures
        r@ == ascii_lower(s@),
{
    let cs = to_chars(s);
    let mut out = String::new();
    let mut i: usize = 0;
    while i < cs.len()
        invariant
            cs@ == s@,
            i <= cs.len(),
            out@ == ascii_lower(cs@.take(i as int)),
        decreases cs.len() - i,
    {
        out.push(char_to_ascii_lower(cs[i]));
        i += 1;
        assert(out@ =~= ascii_lower(cs@.take(i as int)));
    }
    assert(cs@.take(i as int) =~= s@);
    out
}

/// Whether two texts are equal but for the case of ASCII letters.
pub fn eq_ignoring_ascii_case(a: &str, b: &str) -> (r: bool)
    ensures
        r == (ascii_lower(a@) == ascii_lower(b@)),
{
    let x = to_ascii_lower(a);
    let y = to_ascii_lower(b);
    str_eq(x.as_str(), y.as_str())
}

/// `s` with `to` in place of each `from`.
pub open spec fn replace_char(s: Seq<char>, from: char, to: char) -> Seq<char> {
    s.map_values(|c: char| if c == from { to } else { c })
}

pub fn with_char_replaced(s: &str, from: char, to: char) -> (r: String)
    ensures
        r@ == replace_char(s@, from, to),
{
    let cs = to_chars(s);
    let mut out = String::new();
    let mut i: usize = 0;
    while i < cs.len()
        invariant
            cs@ == s@,
            i <= cs.len(),
            out@ == replace_char(cs@.take(i as int), from, to),
        decreases cs.len() - i,
    {
        if cs[i] == from {
            out.push(to);
        } else {
            out.push(cs[i]);
        }
        i += 1;
        assert(out@ =~= replace_char(cs@.take(i as int), from, to));
    }
    assert(cs@.take(i as int) =~= s@);
    out
}

/// `s` with `to` in place of each occurrence of `from`, taken from the left.
pub open spec fn replace(s: Seq<char>, from: Seq<char>, to: Seq<char>) -> Seq<char>
    decreases s.len(),
{
    if s.len() == 0 || from.len() == 0 {
        s
    } else if from.is_prefix_of(s) {
        to + replace(s.skip(from.len() as int), from, to)
    } else {
        seq![s[0]] + replace(s.skip(1), from, to)
    }
}

/// `s` with `to` in place of each occurrence of `from`, which is not empty.
pub fn replaced(s: &str, from: &str, to: &str) -> (r: String)
    requires
        from@.len() > 0,
    ensures
        r@ == replace(s@, from@, to@),
{
    let cs = to_chars(s);
    let f = to_chars(from);
    let mut out = String::new();
    let mut i: usize = 0;
    assert(cs@.skip(0) =~= s@);
    while i < cs.len()
        invariant
            cs@ == s@,
            f@ == from@,
            from@.len() > 0,
            i <= cs.len(),
            out@ + replace(cs@.skip(i as int), from@, to@) == replace(s@, from@, to@),
        decreases cs.len() - i,
    {
        let ghost before = out@;
        let ghost rest = cs@.skip(i as int);
        let mut k: usize = 0;
        while k < f.len() && k < cs.len() - i && cs[i + k] == f[k]
            invariant
                f@ == from@,
                i < cs.len(),
                k <= f.len(),
                k <= cs.len() - i,
                forall|j: int| 0 <= j < k ==> cs@[i + j] == f@[j],
            decreases f.len() - k,
        {
            k += 1;
        }
        if k == f.len() {
            assert(from@ =~= rest.subrange(0, from@.len() as int));
            out.append(to);
            assert(rest.skip(from@.len() as int) =~= cs@.skip(i + k));
            i = i + k;
            assert(out@ + replace(cs@.skip(i as int), from@, to@) =~= before + replace(rest, from@, to@));
        } else {
            assert(!from@.is_prefix_of(rest)) by {
                if from@.is_prefix_of(rest) {
                    assert(rest.subrange(0, from@.len() as int)[k as int] == from@[k as int]);
                }
            }
            out.push(cs[i]);
            assert(rest.skip(1) =~= cs@.skip(i + 1));
            i += 1;
            assert(out@ + replace(cs@.skip(i as int), from@, to@) =~= before + replace(rest, from@, to@));
        }
    }
    assert(cs@.skip(i as int) =~= seq![]);
    assert(out@ =~= replace(s@, from@, to@));
    out
}

/// What `str::to_lowercase` makes of a text.
pub uninterp spec fn lowercase(s: Seq<char>) -> Seq<char>;

/// `str::to_lowercase`: the lower-case form of the text by the rules of Unicode, which
/// on ASCII text takes each capital to its small letter and keeps the rest.
#[verifier::external_body]
pub(crate) fn to_lowercase(s: &str) -> (r: String)
    ensures
        r@ == lowercase(s@),
        vstd::utf8::is_ascii_chars(s@) ==> r@ == ascii_lower(s@),
{
    s.to_lowercase()
}

/// The lower-case form of a text: of ASCII text, each capital as its small letter.
pub open spec fn lower(s: Seq<char>) -> Seq<char> {
    if vstd::utf8::is_ascii_chars(s) {
        ascii_lower(s)
    } else {
        lowercase(s)
    }
}

/// An optional string as its characters.
pub open spec fn opt_text(o: Option<String>) -> Option<Seq<char>> {
    match o {
        Some(s) => Some(s@),
        None => None,
    }
}

/// Two texts, one behind the other.
pub fn concat(a: &str, b: &str) -> (r: String)
    ensures
        r@ == a@ + b@,
{
    let mut out = String::from_str(a);
    out.append(b);
    out
}

/// A text without `c` is its own only piece.
pub proof fn lemma_split_single(s: Seq<char>, c: char)
    requires
        !s.contains(c),
    ensures
        split(s, c) == seq![s],
        split_once(s, c) is None,
{
    lemma_index_of(s, c);
    if index_of(s, c) < s.len() {
        assert(s.contains(s[index_of(s, c)]));
    }
}

/// The first piece of `a`, `c`, `b` is `a`, where `a` does not hold `c`.
pub proof fn lemma_split_first(a: Seq<char>, c: char, b: Seq<char>)
    requires
        !a.contains(c),
    ensures
        split(a + seq![c] + b, c) == seq![a] + split(b, c),
        split_once(a + seq![c] + b, c) == Some((a, b)),
{
    let s = a + seq![c] + b;
    assert forall|j: int| 0 <= j < a.len() implies s[j] != c by {
        assert(a.contains(a[j]));
    }
    lemma_index_is(s, c, a.len() as int);
    assert(s.take(a.len() as int) =~= a);
    assert(s.skip(a.len() as int + 1) =~= b);
}

/// The first line of `a`, newline, `b` is `a`, where `a` holds no newline and does
/// not end in a carriage return.
pub proof fn lemma_lines_first(a: Seq<char>, b: Seq<char>)
    requires
        !a.contains('\n'),
        a.len() > 0 ==> a.last() != '\r',
    ensures
        lines(a + seq!['\n'] + b) == seq![a] + lines(b),
{
    lemma_split_first(a, '\n', b);
    let s = a + seq!['\n'] + b;
    lemma_index_of(s, '\n');
    assert forall|j: int| 0 <= j < a.len() implies s[j] != '\n' by {
        assert(a.contains(a[j]));
    }
    lemma_index_is(s, '\n', a.len() as int);
    assert(s.take(a.len() as int) =~= a);
    assert(s.skip(a.len() as int + 1) =~= b);
}

/// `s` without the characters at its end that are `a` or `b`.
pub open spec fn trim_end_of(s: Seq<char>, a: char, b: char) -> Seq<char>
    decreases s.len(),
{
    if s.len() > 0 && (s.last() == a || s.last() == b) {
        trim_end_of(s.drop_last(), a, b)
    } else {
        s
    }
}

/// `s` without the characters at its end that are `a` or `b`.
pub fn trimmed_end_of(s: &str, a: char, b: char) -> (r: String)
    ensures
        r@ == trim_end_of(s@, a, b),
{
    let cs = to_chars(s);
    let mut j: usize = cs.len();
    assert(cs@.take(j as int) =~= s@);
    while j > 0 && (cs[j - 1] == a || cs[j - 1] == b)
        invariant
            cs@ == s@,
            j <= cs.len(),
            trim_end_of(s@.take(j as int), a, b) == trim_end_of(s@, a, b),
        decreases j,
    {
        assert(s@.take(j as int).drop_last() =~= s@.take(j - 1));
        j -= 1;
    }
    let r = substring(&cs, 0, j);
    assert(r@ =~= s@.take(j as int));
    r
}

/// The texts with `separator` between them.
pub open spec fn join(parts: Seq<Seq<char>>, separator: Seq<char>) -> Seq<char>
    decreases parts.len(),
{
    if parts.len() == 0 {
        seq![]
    } else if parts.len() == 1 {
        parts[0]
    } else {
        join(parts.drop_last(), separator) + separator + parts.last()
    }
}

/// The texts with `separator` between them.
pub fn joined(parts: &Vec<String>, separator: &str) -> (r: String)
    ensures
        r@ == join(texts(parts@), separator@),
{
    let ghost all = texts(parts@);
    let mut out = String::new();
    let mut i: usize = 0;
    while i < parts.len()
        invariant
            i <= parts.len(),
            all == texts(parts@),
            out@ == join(all.take(i as int), separator@),
        decreases parts.len() - i,
    {
        let ghost before = out@;
        if i > 0 {
            out.append(separator);
        }
        out.append(parts[i].as_str());
        proof {
            let t = all.take(i + 1);
            assert(t.drop_last() =~= all.take(i as int));
            assert(t.last() == parts@[i as int]@);
            if i == 0 {
                assert(out@ =~= t[0]);
            }
        }
        i += 1;
    }
    assert(all.take(i as int) =~= all);
    out
}

/// Whether a vector holds a text.
pub fn holds(v: &Vec<String>, s: &str) -> (r: bool)
    ensures
        r == texts(v@).contains(s@),
{
    let mut i: usize = 0;
    while i < v.len()
        invariant
            i <= v.len(),
            forall|j: int| 0 <= j < i ==> (#[trigger] texts(v@)[j]) != s@,
        decreases v.len() - i,
    {
        if str_eq(v[i].as_str(), s) {
            assert(texts(v@)[i as int] == s@);
            return true;
        }
        i += 1;
    }
    false
}

/// A copy of a vector of strings.
pub fn copy_all(v: &Vec<String>) -> (r: Vec<String>)
    ensures
        texts(r@) == texts(v@),
{
    let r = copy_from(v, 0);
    assert(texts(v@).skip(0) =~= texts(v@));
    r
}

/// A copy of the strings from `from` on.
pub fn copy_from(v: &Vec<String>, from: usize) -> (r: Vec<String>)
    requires
        from <= v.len(),
    ensures
        texts(r@) == texts(v@).skip(from as int),
{
    let mut out: Vec<String> = Vec::new();
    let mut i: usize = from;
    while i < v.len()
        invariant
            from <= i <= v.len(),
            texts(out@) == texts(v@).subrange(from as int, i as int),
        decreases v.len() - i,
    {
        let ghost before = texts(out@);
        out.push(v[i].clone());
        assert(texts(out@) =~= before.push(v@[i as int]@));
        i += 1;
        assert(texts(out@) =~= texts(v@).subrange(from as int, i as int));
    }
    assert(texts(v@).subrange(from as int, v@.len() as int) =~= texts(v@).skip(from as int));
    out
}

/// The position of the first white space, or the length.
pub open spec fn space_at(s: Seq<char>) -> int
    decreases s.len(),
{
    if s.len() == 0 || is_space(s[0]) {
        0
    } else {
        1 + space_at(s.skip(1))
    }
}

/// The words of a text: the runs of characters that are not white space.
pub open spec fn words(s: Seq<char>) -> Seq<Seq<char>>
    decreases s.len(),
    via words_decreases
{
    let r = trim_start(s);
    if r.len() == 0 {
        seq![]
    } else {
        let i = space_at(r);
        seq![r.take(i)] + words(r.skip(i))
    }
}

#[via_fn]
proof fn words_decreases(s: Seq<char>) {
    lemma_trim_start(s);
    lemma_space_at(trim_start(s));
}

pub proof fn lemma_trim_start(s: Seq<char>)
    ensures
        trim_start(s).len() <= s.len(),
        trim_start(s).len() > 0 ==> !is_space(trim_start(s)[0]),
    decreases s.len(),
{
    if s.len() > 0 && is_space(s[0]) {
        lemma_trim_start(s.drop_first());
    }
}

pub proof fn lemma_space_at(s: Seq<char>)
    ensures
        0 <= space_at(s) <= s.len(),
        forall|j: int| 0 <= j < space_at(s) ==> !is_space(#[trigger] s[j]),
        space_at(s) < s.len() ==> is_space(s[space_at(s)]),
        s.len() > 0 && !is_space(s[0]) ==> space_at(s) > 0,
    decreases s.len(),
{
    if s.len() > 0 && !is_space(s[0]) {
        lemma_space_at(s.skip(1));
        assert forall|j: int| 0 <= j < space_at(s) implies !is_space(#[trigger] s[j]) by {
            if j > 0 {
                assert(s[j] == s.skip(1)[j - 1]);
            }
        }
    }
}

/// The position of the first character at or behind `from` that is not white space.
pub fn skip_space(cs: &Vec<char>, from: usize) -> (r: usize)
    requires
        from <= cs.len(),
    ensures
        from <= r <= cs.len(),
        cs@.skip(r as int) == trim_start(cs@.skip(from as int)),
{
    let mut i: usize = from;
    while i < cs.len() && char_is_space(cs[i])
        invariant
            from <= i <= cs.len(),
            trim_start(cs@.skip(i as int)) == trim_start(cs@.skip(from as int)),
        decreases cs.len() - i,
    {
        assert(cs@.skip(i as int).drop_first() =~= cs@.skip(i + 1));
        i += 1;
    }
    i
}

/// The position of the first white space at or behind `from`, or the length.
pub fn find_space(cs: &Vec<char>, from: usize) -> (r: usize)
    requires
        from <= cs.len(),
    ensures
        from <= r <= cs.len(),
        r == from + space_at(cs@.skip(from as int)),
{
    let mut i: usize = from;
    while i < cs.len() && !char_is_space(cs[i])
        invariant
            from <= i <= cs.len(),
            i - from + space_at(cs@.skip(i as int)) == space_at(cs@.skip(from as int)),
        decreases cs.len() - i,
    {
        assert(cs@.skip(i as int).skip(1) =~= cs@.skip(i + 1));
        i += 1;
    }
    i
}

/// The words of a text.
pub fn split_words(s: &str) -> (r: Vec<String>)
    ensures
        texts(r@) == words(s@),
{
    let cs = to_chars(s);
    let mut out: Vec<String> = Vec::new();
    let mut from: usize = 0;
    assert(cs@.skip(0) =~= s@);
    assert(texts(out@) =~= seq![]);
    loop
        invariant
            cs@ == s@,
            from <= cs.len(),
            texts(out@) + words(cs@.skip(from as int)) == words(s@),
        decreases cs.len() - from,
    {
        let ghost before = texts(out@);
        let ghost rest = cs@.skip(from as int);
        let start = skip_space(&cs, from);
        let ghost r = trim_start(rest);
        if start == cs.len() {
            assert(words(rest) =~= seq![]);
            assert(texts(out@) =~= words(s@));
            return out;
        }
        let end = find_space(&cs, start);
        proof {
            lemma_trim_start(rest);
            lemma_space_at(r);
        }
        let word = substring(&cs, start, end);
        assert(word@ =~= r.take(end - start));
        out.push(word);
        assert(texts(out@) =~= before.push(word@));
        assert(r.skip(end - start) =~= cs@.skip(end as int));
        assert(texts(out@) + words(cs@.skip(end as int)) =~= before + words(rest));
        from = end;
    }
}

/// A word: not empty, and without white space.
pub open spec fn is_word(w: Seq<char>) -> bool {
    w.len() > 0 && forall|j: int| 0 <= j < w.len() ==> !is_space(#[trigger] w[j])
}

/// Whether all the characters of a text are among those of another.
pub open spec fn drawn_from(s: Seq<char>, all: Seq<char>) -> bool {
    forall|j: int| 0 <= j < s.len() ==> all.contains(#[trigger] s[j])
}

proof fn lemma_trim_start_is_suffix(s: Seq<char>)
    ensures
        drawn_from(trim_start(s), s),
    decreases s.len(),
{
    if s.len() > 0 && is_space(s[0]) {
        lemma_trim_start_is_suffix(s.drop_first());
        assert forall|j: int| 0 <= j < trim_start(s).len() implies s.contains(
            #[trigger] trim_start(s)[j],
        ) by {
            let k = s.drop_first().index_of(trim_start(s)[j]);
            assert(s.drop_first().contains(trim_start(s)[j]));
            assert(s[k + 1] == trim_start(s)[j]);
        }
    } else {
        assert(trim_start(s) =~= s);
    }
}

/// The words of a text are words, of its characters.
pub proof fn lemma_words_are_words(s: Seq<char>)
    ensures
        forall|i: int| 0 <= i < words(s).len() ==> is_word(#[trigger] words(s)[i]),
        forall|i: int| 0 <= i < words(s).len() ==> drawn_from(#[trigger] words(s)[i], s),
    decreases s.len(),
{
    let r = trim_start(s);
    lemma_trim_start(s);
    lemma_space_at(r);
    if r.len() > 0 {
        let n = space_at(r);
        lemma_words_are_words(r.skip(n));
        lemma_trim_start_is_suffix(s);
        let ws = words(s);
        assert forall|i: int| 0 <= i < ws.len() implies is_word(#[trigger] ws[i]) && drawn_from(
            ws[i],
            s,
        ) by {
            if i == 0 {
                assert forall|j: int| 0 <= j < ws[0].len() implies s.contains(#[trigger] ws[0][j]) by {
                    assert(ws[0][j] == r[j]);
                }
            } else {
                let w = words(r.skip(n))[i - 1];
                assert(ws[i] == w);
                assert forall|j: int| 0 <= j < w.len() implies s.contains(#[trigger] w[j]) by {
                    let k = r.skip(n).index_of(w[j]);
                    assert(r[k + n] == w[j]);
                }
            }
        }
    }
}

proof fn lemma_join_from_front(parts: Seq<Seq<char>>, separator: Seq<char>)
    requires
        parts.len() >= 2,
    ensures
        join(parts, separator) == parts[0] + separator + join(parts.skip(1), separator),
    decreases parts.len(),
{
    let back = parts.drop_last();
    if parts.len() == 2 {
        assert(back.len() == 1 && back[0] == parts[0]);
        assert(parts.skip(1).len() == 1 && parts.skip(1)[0] == parts.last());
        assert(join(back, separator) == parts[0]);
        assert(join(parts.skip(1), separator) == parts.last());
    } else {
        lemma_join_from_front(back, separator);
        assert(back.skip(1) =~= parts.skip(1).drop_last());
        assert(parts.skip(1).last() == parts.last());
        assert(join(parts, separator) =~= parts[0] + separator + join(parts.skip(1), separator));
    }
}

/// A line that is read as it stands: not empty, without a newline, and not ended by a carriage
/// return.
pub open spec fn is_line(l: Seq<char>) -> bool {
    l.len() > 0 && !l.contains('\n') && l.last() != '\r'
}

/// Lines with a newline between them are read back as those lines.
pub proof fn lemma_lines_of_joined(ls: Seq<Seq<char>>)
    requires
        forall|i: int| 0 <= i < ls.len() ==> is_line(#[trigger] ls[i]),
    ensures
        lines(join(ls, seq!['\n'])) == ls,
    decreases ls.len(),
{
    let n = seq!['\n'];
    if ls.len() == 0 {
        assert(lines(join(ls, n)) =~= ls);
    } else if ls.len() == 1 {
        let l = ls[0];
        assert(is_line(l));
        lemma_index_of(l, '\n');
        if index_of(l, '\n') < l.len() {
            assert(l.contains(l[index_of(l, '\n')]));
        }
        assert(lines(l) =~= ls);
    } else {
        lemma_join_from_front(ls, n);
        assert(is_line(ls[0]));
        assert forall|i: int| 0 <= i < ls.skip(1).len() implies is_line(#[trigger] ls.skip(1)[i]) by {
            assert(ls.skip(1)[i] == ls[i + 1]);
        }
        lemma_lines_of_joined(ls.skip(1));
        lemma_lines_first(ls[0], join(ls.skip(1), n));
        assert(seq![ls[0]] + ls.skip(1) =~= ls);
    }
}

proof fn lemma_no_space(w: Seq<char>)
    requires
        is_word(w),
    ensures
        trim_start(w) == w,
        space_at(w) == w.len(),
{
    lemma_space_at(w);
}

/// White space in front of a text that begins with none is what is trimmed.
pub proof fn lemma_trim_gap(gap: Seq<char>, t: Seq<char>)
    requires
        forall|j: int| 0 <= j < gap.len() ==> is_space(#[trigger] gap[j]),
        t.len() > 0 ==> !is_space(t[0]),
    ensures
        trim_start(gap + t) == t,
    decreases gap.len(),
{
    if gap.len() == 0 {
        assert(gap + t =~= t);
    } else {
        let less = gap.drop_first();
        assert forall|j: int| 0 <= j < less.len() implies is_space(#[trigger] less[j]) by {
            assert(less[j] == gap[j + 1]);
        }
        lemma_trim_gap(less, t);
        assert((gap + t)[0] == gap[0]);
        assert((gap + t).drop_first() =~= less + t);
    }
}

/// The white space behind a word is the first that is found.
pub proof fn lemma_space_behind(w: Seq<char>, rest: Seq<char>)
    requires
        is_word(w),
        rest.len() > 0 ==> is_space(rest[0]),
    ensures
        space_at(w + rest) == w.len(),
{
    let s = w + rest;
    lemma_space_at(s);
    let i = space_at(s);
    if i < w.len() {
        assert(s[i] == w[i]);
    }
    if i > w.len() {
        assert(s[w.len() as int] == rest[0]);
    }
}

/// The bytes of one text behind another are the bytes of the one behind those of the other.
pub proof fn lemma_utf8_of_sum(a: Seq<char>, b: Seq<char>)
    ensures
        vstd::utf8::encode_utf8(a + b) == vstd::utf8::encode_utf8(a) + vstd::utf8::encode_utf8(b),
    decreases a.len(),
{
    let t = a + b;
    if a.len() == 0 {
        assert(t =~= b);
        assert(vstd::utf8::encode_utf8(a) =~= Seq::<u8>::empty());
        assert(vstd::utf8::encode_utf8(a) + vstd::utf8::encode_utf8(b) =~= vstd::utf8::encode_utf8(b));
    } else {
        lemma_utf8_of_sum(a.drop_first(), b);
        assert(t[0] == a[0]);
        assert(t.drop_first() =~= a.drop_first() + b);
        let first = vstd::utf8::encode_scalar(a[0] as u32);
        let rest = vstd::utf8::encode_utf8(a.drop_first());
        assert(first + (rest + vstd::utf8::encode_utf8(b)) =~= (first + rest) + vstd::utf8::encode_utf8(b));
    }
}

/// Texts with a separator between each two are split into those texts, where none holds it.
pub proof fn lemma_split_of_joined(parts: Seq<Seq<char>>, c: char)
    requires
        parts.len() > 0,
        forall|i: int| 0 <= i < parts.len() ==> !(#[trigger] parts[i]).contains(c),
    ensures
        split(join(parts, seq![c]), c) == parts,
    decreases parts.len(),
{
    if parts.len() == 1 {
        assert(!parts[0].contains(c));
        lemma_split_single(parts[0], c);
        assert(seq![parts[0]] =~= parts);
    } else {
        lemma_join_from_front(parts, seq![c]);
        assert(!parts[0].contains(c));
        assert forall|i: int| 0 <= i < parts.skip(1).len() implies !(
        #[trigger] parts.skip(1)[i]).contains(c) by {
            assert(parts.skip(1)[i] == parts[i + 1]);
        }
        lemma_split_of_joined(parts.skip(1), c);
        lemma_split_first(parts[0], c, join(parts.skip(1), seq![c]));
        assert(seq![parts[0]] + parts.skip(1) =~= parts);
    }
}

/// Where the first character of `from` does not occur, nothing is replaced.
pub proof fn lemma_replace_nothing(s: Seq<char>, from: Seq<char>, to: Seq<char>)
    requires
        from.len() > 0,
        !s.contains(from[0]),
    ensures
        replace(s, from, to) == s,
    decreases s.len(),
{
    if s.len() > 0 {
        assert(s.contains(s[0]));
        assert forall|j: int| 0 <= j < s.skip(1).len() implies s.skip(1)[j] != from[0] by {
            assert(s.contains(s[j + 1]));
        }
        lemma_replace_nothing(s.skip(1), from, to);
        if from.is_prefix_of(s) {
            assert(s.subrange(0, from.len() as int)[0] == from[0]);
        }
        assert(seq![s[0]] + s.skip(1) =~= s);
    }
}

/// A text without white space on either side is not trimmed.
pub proof fn lemma_trim_kept(s: Seq<char>)
    requires
        s.len() > 0 ==> !is_space(s[0]) && !is_space(s.last()),
    ensures
        trim(s) == s,
{
}

/// Words with one blank between them are read back as those words.
pub proof fn lemma_words_of_joined(ws: Seq<Seq<char>>)
    requires
        forall|i: int| 0 <= i < ws.len() ==> is_word(#[trigger] ws[i]),
    ensures
        words(join(ws, " "@)) == ws,
    decreases ws.len(),
{
    reveal_strlit(" ");
    let s = join(ws, " "@);
    if ws.len() == 0 {
        assert(words(s) =~= ws);
    } else if ws.len() == 1 {
        lemma_no_space(ws[0]);
        assert(s.take(s.len() as int) =~= ws[0]);
        assert(trim_start(s.skip(s.len() as int)).len() == 0);
        assert(words(s.skip(s.len() as int)) =~= seq![]);
        assert(words(s) =~= ws);
    } else {
        lemma_join_from_front(ws, " "@);
        let w = ws[0];
        let rest = join(ws.skip(1), " "@);
        assert forall|i: int| 0 <= i < ws.skip(1).len() implies is_word(#[trigger] ws.skip(1)[i]) by {
            assert(ws.skip(1)[i] == ws[i + 1]);
        }
        lemma_words_of_joined(ws.skip(1));
        assert(is_word(w));
        assert(s[0] == w[0]);
        assert(trim_start(s) == s);
        lemma_space_at(s);
        assert(s[w.len() as int] == ' ');
        assert(is_space(' '));
        if space_at(s) < w.len() {
            assert(s[space_at(s)] == w[space_at(s)]);
        }
        assert(space_at(s) == w.len());
        let behind = s.skip(w.len() as int);
        assert(s.take(w.len() as int) =~= w);
        assert(behind[0] == ' ');
        assert(behind.drop_first() =~= rest);
        assert(trim_start(behind) == trim_start(rest));
        assert(words(behind) == words(rest));
        assert(words(s) =~= ws);
    }
}

/// Joined texts are of the characters of the texts and of what stands between them.
pub proof fn lemma_join_chars(parts: Seq<Seq<char>>, separator: Seq<char>, kept: spec_fn(char) -> bool)
    requires
        forall|i: int, j: int|
            0 <= i < parts.len() && 0 <= j < parts[i].len() ==> kept(#[trigger] parts[i][j]),
        forall|j: int| 0 <= j < separator.len() ==> kept(#[trigger] separator[j]),
    ensures
        forall|j: int| 0 <= j < join(parts, separator).len() ==> kept(#[trigger] join(parts, separator)[j]),
    decreases parts.len(),
{
    if parts.len() >= 2 {
        let back = parts.drop_last();
        assert forall|i: int, j: int| 0 <= i < back.len() && 0 <= j < back[i].len() implies kept(
            #[trigger] back[i][j],
        ) by {
            assert(back[i][j] == parts[i][j]);
        }
        lemma_join_chars(back, separator, kept);
        let s = join(parts, separator);
        let n = join(back, separator).len();
        let m = n + separator.len();
        assert forall|j: int| 0 <= j < s.len() implies kept(#[trigger] s[j]) by {
            if j < n {
                assert(s[j] == join(back, separator)[j]);
            } else if j < m {
                assert(s[j] == separator[j - n]);
            } else {
                assert(s[j] == parts[parts.len() - 1][j - m]);
            }
        }
    } else if parts.len() == 1 {
        assert forall|j: int| 0 <= j < join(parts, separator).len() implies kept(
            #[trigger] join(parts, separator)[j],
        ) by {
            assert(join(parts, separator)[j] == parts[0][j]);
        }
    }
}

/// A small ASCII letter as its capital, any other character unchanged.
pub open spec fn ascii_upper_char(c: char) -> char {
    if 'a' <= c <= 'z' {
        (c as u32 - 32) as char
    } else {
        c
    }
}

/// `s` with each small ASCII letter as its capital.
pub open spec fn ascii_upper(s: Seq<char>) -> Seq<char> {
    s.map_values(|c: char| ascii_upper_char(c))
}

/// What `str::to_uppercase` makes of a text.
pub uninterp spec fn uppercase(s: Seq<char>) -> Seq<char>;

/// `str::to_uppercase`: the upper-case form of the text by the rules of Unicode, which on
/// ASCII text takes each small letter to its capital and keeps the rest.
#[verifier::external_body]
pub(crate) fn to_uppercase(s: &str) -> (r: String)
    ensures
        r@ == uppercase(s@),
        vstd::utf8::is_ascii_chars(s@) ==> r@ == ascii_upper(s@),
{
    s.to_uppercase()
}

/// The upper-case form of a text: of ASCII text, each small letter as its capital.
pub open spec fn upper(s: Seq<char>) -> Seq<char> {
    if vstd::utf8::is_ascii_chars(s) {
        ascii_upper(s)
    } else {
        uppercase(s)
    }
}

/// A text with blanks behind it, up to `width` characters.
pub open spec fn padded(s: Seq<char>, width: nat) -> Seq<char> {
    if s.len() < width {
        s + Seq::new((width - s.len()) as nat, |i: int| ' ')
    } else {
        s
    }
}

/// Writes a text and blanks behind it, up to `width` characters.
pub fn push_padded(out: &mut String, s: &str, width: usize)
    ensures
        final(out)@ == old(out)@ + padded(s@, width as nat),
{
    let ghost before = out@;
    let cs = to_chars(s);
    out.append(s);
    let mut n: usize = cs.len();
    assert(out@ =~= before + s@ + Seq::new(0, |i: int| ' '));
    while n < width
        invariant
            cs@ == s@,
            cs.len() <= n,
            n <= width || n == cs.len(),
            out@ == before + s@ + Seq::new((n - cs.len()) as nat, |i: int| ' '),
        decreases width - n,
    {
        out.push(' ');
        n += 1;
        assert(out@ =~= before + s@ + Seq::new((n - cs.len()) as nat, |i: int| ' '));
    }
    assert(out@ =~= before + padded(s@, width as nat));
}

} // verus!
