//! How texts are cut, trimmed and put together, and what URLs are made of.

use vstd::prelude::*;
use crate::error::ErrorView;
use crate::url::BuildErrorView;

verus! {

/// Bytes in hexadecimal have the digit of their upper half first.
pub proof fn upper_halves_come_first(data: Seq<u8>, i: int)
    requires
        0 <= i < data.len(),
    ensures
        ({
            let t = crate::utils::hex_text(data);
            &&& t.len() == 2 * data.len()
            &&& 16 * crate::cache::limits::digit_of(t[2 * i]) + crate::cache::limits::digit_of(t[2 * i + 1])
                == data[i]
            &&& crate::types::is_lower_hex(t[2 * i]) && crate::types::is_lower_hex(t[2 * i + 1])
        }),
{
    let b = data[i];
    assert(b / 16 < 16 && b % 16 < 16);
}

/// White space is what parts words in texts of ASCII: the blank, the tab and the line ends. No
/// character that can be seen is white space.
pub proof fn blanks_are_white_space(c: char)
    ensures
        crate::text::is_space(' ') && crate::text::is_space('\t') && crate::text::is_space('\n')
            && crate::text::is_space('\r'),
        '!' <= c <= '~' ==> !crate::text::is_space(c),
        c == '\u{85}' || c == '\u{a0}' || c == '\u{1680}' || '\u{2000}' <= c <= '\u{200a}' || c == '\u{2028}'
            || c == '\u{2029}' || c == '\u{202f}' || c == '\u{205f}' || c == '\u{3000}'
            ==> crate::text::is_space(c),
{
}

/// White space around a text is trimmed, and nothing else is.
pub proof fn white_space_is_trimmed(before: Seq<char>, s: Seq<char>, behind: Seq<char>)
    requires
        s.len() > 0,
        !crate::text::is_space(s[0]),
        !crate::text::is_space(s.last()),
        forall|j: int| 0 <= j < before.len() ==> crate::text::is_space(#[trigger] before[j]),
        forall|j: int| 0 <= j < behind.len() ==> crate::text::is_space(#[trigger] behind[j]),
    ensures
        crate::text::trim(before + s + behind) == s,
{
    let t = s + behind;
    assert(before + s + behind =~= before + t);
    assert(t[0] == s[0]);
    crate::text::lemma_trim_gap(before, t);
    lemma_trim_behind(s, behind);
}

proof fn lemma_trim_behind(s: Seq<char>, behind: Seq<char>)
    requires
        s.len() > 0,
        !crate::text::is_space(s.last()),
        forall|j: int| 0 <= j < behind.len() ==> crate::text::is_space(#[trigger] behind[j]),
    ensures
        crate::text::trim_end(s + behind) == s,
    decreases behind.len(),
{
    let t = s + behind;
    if behind.len() == 0 {
        assert(t =~= s);
    } else {
        let less = behind.drop_last();
        assert forall|j: int| 0 <= j < less.len() implies crate::text::is_space(#[trigger] less[j]) by {
            assert(less[j] == behind[j]);
        }
        lemma_trim_behind(s, less);
        assert(behind[behind.len() - 1] == behind.last());
        assert(t.last() == behind.last());
        assert(t.drop_last() =~= s + less);
    }
}

/// Lines end with a line feed, which may have a carriage return before it; the last may have no end.
pub proof fn lines_have_either_end(a: Seq<char>, b: Seq<char>)
    requires
        !a.contains('\n'),
        a.len() > 0 ==> a.last() != '\r',
    ensures
        crate::text::lines(a + seq!['\n'] + b) == seq![a] + crate::text::lines(b),
        crate::text::lines(a + seq!['\r', '\n'] + b) == seq![a] + crate::text::lines(b),
        crate::text::lines(seq![]).len() == 0,
        a.len() > 0 ==> crate::text::lines(a) == seq![a],
{
    crate::text::lemma_lines_first(a, b);
    let r = a.push('\r');
    let s = a + seq!['\r', '\n'] + b;
    assert(s =~= r + seq!['\n'] + b);
    assert forall|j: int| 0 <= j < r.len() implies s[j] != '\n' by {
        if j < a.len() {
            assert(a.contains(a[j]));
        }
    }
    crate::text::lemma_index_is(s, '\n', r.len() as int);
    assert(s.take(r.len() as int) =~= r);
    assert(s.skip(r.len() as int + 1) =~= b);
    assert(r.drop_last() =~= a);
    crate::text::lemma_index_of(a, '\n');
    if crate::text::index_of(a, '\n') < a.len() {
        assert(a.contains(a[crate::text::index_of(a, '\n')]));
    }
}

/// Two characters are taken off the end of a text as often as they stand there, and no others.
pub proof fn ends_are_taken_off(s: Seq<char>, tail: Seq<char>, a: char, b: char)
    requires
        s.len() > 0 ==> s.last() != a && s.last() != b,
        forall|j: int| 0 <= j < tail.len() ==> (#[trigger] tail[j] == a || tail[j] == b),
    ensures
        crate::text::trim_end_of(s + tail, a, b) == s,
    decreases tail.len(),
{
    let t = s + tail;
    if tail.len() == 0 {
        assert(t =~= s);
    } else {
        let less = tail.drop_last();
        assert forall|j: int| 0 <= j < less.len() implies (#[trigger] less[j] == a || less[j] == b) by {
            assert(less[j] == tail[j]);
        }
        ends_are_taken_off(s, less, a, b);
        assert(tail[tail.len() - 1] == tail.last());
        assert(t.last() == tail.last());
        assert(t.drop_last() =~= s + less);
    }
}

/// The small letters and the capitals of ASCII stand for each other, 32 places apart, and no other
/// character stands for another one.
pub proof fn letters_have_two_forms(c: char)
    ensures
        'A' <= c <= 'Z' ==> crate::text::ascii_lower_char(c) as int == c as int + 32,
        !('A' <= c <= 'Z') ==> crate::text::ascii_lower_char(c) == c,
        'a' <= c <= 'z' ==> crate::text::ascii_upper_char(c) as int == c as int - 32,
        !('a' <= c <= 'z') ==> crate::text::ascii_upper_char(c) == c,
{
}

/// A text is filled up with blanks behind it to a width, and never cut.
pub proof fn texts_are_filled_up(s: Seq<char>, width: nat)
    ensures
        ({
            let t = crate::text::padded(s, width);
            &&& s.is_prefix_of(t)
            &&& t.len() == (if s.len() < width {
                width
            } else {
                s.len()
            })
            &&& forall|i: int| s.len() <= i < t.len() ==> #[trigger] t[i] == ' '
        }),
{
    assert(crate::text::padded(s, width).subrange(0, s.len() as int) =~= s);
}

// ---------------------------------------------------------------------------
// URLs
// ---------------------------------------------------------------------------

/// Every character takes at least a byte in a URL, and in its path or query at most twelve; a small
/// letter or a digit takes one.
pub proof fn characters_take_little_room(s: Seq<char>)
    ensures
        s.len() <= crate::url::text_room(s) <= 256 * s.len(),
        s.len() <= crate::url::part_room(s) <= 12 * s.len(),
        (forall|j: int|
            0 <= j < s.len() ==> ('0' <= #[trigger] s[j] <= '9' || 'a' <= s[j] <= 'z')) ==> crate::url::part_room(
            s,
        ) == s.len(),
    decreases s.len(),
{
    if s.len() > 0 {
        let t = s.drop_last();
        characters_take_little_room(t);
        if forall|j: int| 0 <= j < s.len() ==> ('0' <= #[trigger] s[j] <= '9' || 'a' <= s[j] <= 'z') {
            assert forall|j: int| 0 <= j < t.len() implies ('0' <= #[trigger] t[j] <= '9' || 'a' <= t[j]
                <= 'z') by {
                assert(t[j] == s[j]);
            }
            assert('0' <= s[s.len() - 1] <= '9' || 'a' <= s[s.len() - 1] <= 'z');
        }
    }
}

/// Texts of a million characters or fewer can be put into a URL of a million or fewer.
pub proof fn short_parts_fit(url: Seq<char>, part: Seq<char>)
    requires
        url.len() <= 1_000_000,
        part.len() <= 1_000_000,
    ensures
        crate::url::fits(url, part),
        crate::url::fits_host(url, part),
        crate::url::fits_query(url, part),
{
    characters_take_little_room(url);
    characters_take_little_room(part);
}

/// A base gets a host and then a port: a host that is an address as that address, any other by its
/// name.
pub proof fn urls_get_host_and_port(
    base: Seq<char>,
    parsed: Seq<char>,
    host: Seq<char>,
    hosted: Seq<char>,
    port: Option<u16>,
)
    requires
        parsed.len() <= 1_000_000,
        host.len() <= 1_000_000,
        hosted.len() <= 1_000_000,
    ensures
        crate::url::url_parsed(base) == Ok::<Seq<char>, Seq<char>>(parsed) && (match crate::ip::parse_ip(host) {
            Some(ip) => crate::url::url_with_ip(parsed, ip) == Some(hosted),
            None => crate::url::url_with_host(parsed, host) == Ok::<Seq<char>, Seq<char>>(hosted),
        }) ==> crate::url::with_authority(base, None, host, port) == (match crate::url::url_with_port(
            hosted,
            port,
        ) {
            Some(u) => Ok::<Seq<char>, BuildErrorView>(u),
            None => Err::<Seq<char>, BuildErrorView>(BuildErrorView::Port),
        }),
{
    short_parts_fit(parsed, host);
    short_parts_fit(hosted, host);
    characters_take_little_room(hosted);
}

/// The URL of a call is that of its host and port, with the path without question marks at its end
/// and with the query; the usual port is not written.
pub proof fn calls_have_their_url(host: Seq<char>, port: u16, path: Seq<char>, query: Seq<char>, at: Seq<char>)
    requires
        at.len() <= 1_000_000,
        path.len() <= 1_000_000,
        query.len() <= 1_000_000,
        path.len() > 0 ==> path.last() != '?',
    ensures
        crate::url::with_authority(
            "http://rpc.hentaiathome.net/"@,
            None,
            host,
            if port == 80 {
                None
            } else {
                Some(port)
            },
        ) == Ok::<Seq<char>, BuildErrorView>(at) && crate::url::url_with_path(at, path).len() <= 1_000_000
            ==> crate::rpc::rpc_url(host, port, path, query) == Ok::<Seq<char>, ErrorView>(
            crate::url::url_with_query(crate::url::url_with_path(at, path), query),
        ),
        crate::rpc::rpc_url(host, port, path.push('?'), query) == crate::rpc::rpc_url(host, port, path, query),
{
    ends_are_taken_off(path, seq![], '?', '?');
    ends_are_taken_off(path, seq!['?'], '?', '?');
    assert(path + Seq::<char>::empty() =~= path);
    assert(path + seq!['?'] =~= path.push('?'));
    short_parts_fit(at, path);
    if crate::url::url_with_path(at, path).len() <= 1_000_000 {
        short_parts_fit(crate::url::url_with_path(at, path), query);
    }
}

} // verus!
