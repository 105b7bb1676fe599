//! IP addresses as numbers and as text.

use vstd::prelude::*;

verus! {

/// An address: four bytes, or eight groups of sixteen bits.
#[derive(Debug, Clone, Copy)]
pub enum IpAddr {
    V4([u8; 4]),
    V6([u16; 8]),
}

/// An address as a sequence.
pub ghost enum IpView {
    V4(Seq<u8>),
    V6(Seq<u16>),
}

impl View for IpAddr {
    type V = IpView;

    open spec fn view(&self) -> IpView {
        match self {
            IpAddr::V4(o) => IpView::V4(o@),
            IpAddr::V6(g) => IpView::V6(g@),
        }
    }
}

/// The addresses of a vector.
pub open spec fn views(v: Seq<IpAddr>) -> Seq<IpView> {
    Seq::new(v.len(), |i: int| v[i]@)
}

// ---------------------------------------------------------------------------
// Text to address
// ---------------------------------------------------------------------------

/// The number that one to three decimal digits without a leading zero write, up to 255.
pub open spec fn octet(s: Seq<char>) -> Option<u8> {
    if 1 <= s.len() <= 3 && crate::number::all_digits(s) && (s.len() > 1 ==> s[0] != '0')
        && crate::number::digits_value(s) <= 255 {
        Some(crate::number::digits_value(s) as u8)
    } else {
        None
    }
}

/// The address that four such numbers with dots between them write.
pub open spec fn parse_v4(s: Seq<char>) -> Option<Seq<u8>> {
    let p = crate::text::split(s, '.');
    if p.len() == 4 && octet(p[0]) is Some && octet(p[1]) is Some && octet(p[2]) is Some && octet(
        p[3],
    ) is Some {
        Some(seq![octet(p[0])->0, octet(p[1])->0, octet(p[2])->0, octet(p[3])->0])
    } else {
        None
    }
}

/// The value of a hexadecimal digit.
pub open spec fn hex_digit(c: char) -> int {
    if '0' <= c <= '9' {
        c as int - '0' as int
    } else if 'a' <= c <= 'f' {
        c as int - 'a' as int + 10
    } else {
        c as int - 'A' as int + 10
    }
}

/// The number that hexadecimal digits write.
pub open spec fn hex_number(s: Seq<char>) -> int
    decreases s.len(),
{
    if s.len() == 0 {
        0
    } else {
        16 * hex_number(s.drop_last()) + hex_digit(s.last())
    }
}

/// The number that one to four hexadecimal digits write.
pub open spec fn group(s: Seq<char>) -> Option<u16> {
    if 1 <= s.len() <= 4 && forall|i: int|
        0 <= i < s.len() ==> crate::types::is_hex(#[trigger] s[i]) {
        Some(hex_number(s) as u16)
    } else {
        None
    }
}

/// The groups that the pieces write, each one of them.
pub open spec fn plain_groups(p: Seq<Seq<char>>) -> Option<Seq<u16>> {
    if forall|i: int| 0 <= i < p.len() ==> group(#[trigger] p[i]) is Some {
        Some(Seq::new(p.len(), |i: int| group(p[i])->0))
    } else {
        None
    }
}

/// Four bytes as two groups.
pub open spec fn v4_groups(o: Seq<u8>) -> Seq<u16> {
    seq![(o[0] * 256 + o[1]) as u16, (o[2] * 256 + o[3]) as u16]
}

/// The groups that the pieces write, the last of which may be four bytes with dots.
pub open spec fn tail_groups(p: Seq<Seq<char>>) -> Option<Seq<u16>> {
    if p.len() > 0 && parse_v4(p.last()) is Some {
        match plain_groups(p.drop_last()) {
            Some(g) => Some(g + v4_groups(parse_v4(p.last())->0)),
            None => None,
        }
    } else {
        plain_groups(p)
    }
}

/// The pieces between colons; an empty text has none.
pub open spec fn pieces(s: Seq<char>) -> Seq<Seq<char>> {
    if s.len() == 0 {
        seq![]
    } else {
        crate::text::split(s, ':')
    }
}

/// The position of the first two colons in a row, or the length.
pub open spec fn gap_at(s: Seq<char>) -> int
    decreases s.len(),
{
    if s.len() < 2 {
        s.len() as int
    } else if s[0] == ':' && s[1] == ':' {
        0
    } else {
        1 + gap_at(s.skip(1))
    }
}

/// The address that groups with colons between them write: all eight, or fewer with a gap
/// of two colons that stands for one or more zeros.
pub open spec fn parse_v6(s: Seq<char>) -> Option<Seq<u16>> {
    let i = gap_at(s);
    if i < s.len() {
        match (plain_groups(pieces(s.take(i))), tail_groups(pieces(s.skip(i + 2)))) {
            (Some(head), Some(tail)) => if head.len() + tail.len() <= 7 {
                Some(head + Seq::new((8 - head.len() - tail.len()) as nat, |k: int| 0u16) + tail)
            } else {
                None
            },
            _ => None,
        }
    } else {
        match tail_groups(crate::text::split(s, ':')) {
            Some(g) => if g.len() == 8 {
                Some(g)
            } else {
                None
            },
            None => None,
        }
    }
}

/// The address that a text writes.
pub open spec fn parse_ip(s: Seq<char>) -> Option<IpView> {
    match parse_v4(s) {
        Some(o) => Some(IpView::V4(o)),
        None => match parse_v6(s) {
            Some(g) => Some(IpView::V6(g)),
            None => None,
        },
    }
}

// ---------------------------------------------------------------------------
// Address to text
// ---------------------------------------------------------------------------

/// Four bytes with dots between them.
pub open spec fn v4_text(o: Seq<u8>) -> Seq<char> {
    crate::number::decimal(o[0] as nat) + seq!['.'] + (crate::number::decimal(o[1] as nat) + seq!['.'] + (
    crate::number::decimal(o[2] as nat) + seq!['.'] + crate::number::decimal(o[3] as nat)))
}

/// `n` in lower-case hexadecimal, without leading zeros.
pub open spec fn hex_text(n: nat) -> Seq<char>
    decreases n,
{
    if n < 16 {
        seq![crate::utils::hex_char(n as u8)]
    } else {
        hex_text(n / 16).push(crate::utils::hex_char((n % 16) as u8))
    }
}

/// Groups in hexadecimal with colons between them.
pub open spec fn groups_text(g: Seq<u16>) -> Seq<char>
    decreases g.len(),
{
    if g.len() == 0 {
        seq![]
    } else if g.len() == 1 {
        hex_text(g[0] as nat)
    } else {
        hex_text(g[0] as nat) + seq![':'] + groups_text(g.skip(1))
    }
}

/// How many zeros stand in a row from `i` on.
pub open spec fn zeros_at(g: Seq<u16>, i: int) -> int
    decreases g.len() - i,
{
    if 0 <= i < g.len() && g[i] == 0 {
        1 + zeros_at(g, i + 1)
    } else {
        0
    }
}

/// The first of the longest rows of zeros that begin before `n`.
pub open spec fn longest_before(g: Seq<u16>, n: int) -> int
    decreases n,
{
    if n <= 1 {
        0
    } else {
        let best = longest_before(g, n - 1);
        if zeros_at(g, n - 1) > zeros_at(g, best) {
            n - 1
        } else {
            best
        }
    }
}

/// Whether the groups are those of four bytes: five zeros, all ones, and the bytes.
pub open spec fn is_mapped(g: Seq<u16>) -> bool {
    g[0] == 0 && g[1] == 0 && g[2] == 0 && g[3] == 0 && g[4] == 0 && g[5] == 0xffff
}

/// The four bytes in the last two groups.
pub open spec fn mapped_bytes(g: Seq<u16>) -> Seq<u8> {
    seq![(g[6] / 256) as u8, (g[6] % 256) as u8, (g[7] / 256) as u8, (g[7] % 256) as u8]
}

/// Eight groups as text: the first of the longest rows of two or more zeros becomes a
/// gap, and the last two groups of a mapped address are four bytes with dots.
pub open spec fn v6_text(g: Seq<u16>) -> Seq<char> {
    let start = longest_before(g, 8);
    let length = zeros_at(g, start);
    if is_mapped(g) {
        "::ffff:"@ + v4_text(mapped_bytes(g))
    } else if length > 1 {
        groups_text(g.take(start)) + "::"@ + groups_text(g.skip(start + length))
    } else {
        groups_text(g)
    }
}

/// An address as text.
pub open spec fn ip_text(v: IpView) -> Seq<char> {
    match v {
        IpView::V4(o) => v4_text(o),
        IpView::V6(g) => v6_text(g),
    }
}

/// A mapped address as its four bytes, any other unchanged.
pub open spec fn normalized(v: IpView) -> IpView {
    match v {
        IpView::V6(g) => if is_mapped(g) {
            IpView::V4(mapped_bytes(g))
        } else {
            v
        },
        _ => v,
    }
}

/// Normalizing twice is normalizing once.
pub proof fn normalizing_is_idempotent(v: IpView)
    ensures
        normalized(normalized(v)) == normalized(v),
{
}

/// Whether every character is a digit, a small letter up to `f`, a dot or a colon.
pub open spec fn is_ip_chars(s: Seq<char>) -> bool {
    forall|i: int|
        0 <= i < s.len() ==> (crate::types::is_lower_hex(#[trigger] s[i]) || s[i] == '.' || s[i] == ':')
}

proof fn lemma_decimal_chars(n: nat)
    ensures
        is_ip_chars(crate::number::decimal(n)),
{
    crate::number::lemma_decimal(n);
    let s = crate::number::decimal(n);
    assert forall|i: int| 0 <= i < s.len() implies crate::types::is_lower_hex(#[trigger] s[i]) by {
        assert(crate::number::is_digit(s[i]));
    }
}

proof fn lemma_hex_chars(n: nat)
    ensures
        is_ip_chars(hex_text(n)),
    decreases n,
{
    if n >= 16 {
        lemma_hex_chars(n / 16);
    }
}

proof fn lemma_groups_chars(g: Seq<u16>)
    ensures
        is_ip_chars(groups_text(g)),
    decreases g.len(),
{
    if g.len() > 0 {
        lemma_hex_chars(g[0] as nat);
        lemma_groups_chars(g.skip(1));
    }
}

/// The text of an address holds no capital letters: it is its own lower-case form.
pub proof fn ip_text_is_lower_case(v: IpView)
    ensures
        is_ip_chars(ip_text(v)),
        crate::text::ascii_lower(ip_text(v)) == ip_text(v),
{
    let s = ip_text(v);
    match v {
        IpView::V4(o) => lemma_v4_chars(o),
        IpView::V6(g) => {
            let start = longest_before(g, 8);
            let length = zeros_at(g, start);
            lemma_v4_chars(mapped_bytes(g));
            lemma_groups_chars(g.take(start));
            lemma_groups_chars(g.skip(start + length));
            lemma_groups_chars(g);
            reveal_strlit("::ffff:");
            reveal_strlit("::");
        },
    }
    assert forall|i: int| 0 <= i < s.len() implies crate::text::ascii_lower_char(#[trigger] s[i]) == s[i] by {
        assert(crate::types::is_lower_hex(s[i]) || s[i] == '.' || s[i] == ':');
    }
    assert(crate::text::ascii_lower(s) =~= s);
}

proof fn lemma_v4_chars(o: Seq<u8>)
    ensures
        is_ip_chars(v4_text(o)),
{
    lemma_decimal_chars(o[0] as nat);
    lemma_decimal_chars(o[1] as nat);
    lemma_decimal_chars(o[2] as nat);
    lemma_decimal_chars(o[3] as nat);
}

// ---------------------------------------------------------------------------
// Law: the text of an address is read as that address
// ---------------------------------------------------------------------------

proof fn lemma_split_first(a: Seq<char>, rest: Seq<char>, c: char)
    requires
        forall|i: int| 0 <= i < a.len() ==> a[i] != c,
    ensures
        crate::text::split(a + seq![c] + rest, c) == seq![a] + crate::text::split(rest, c),
        crate::text::split(a, c) == seq![a],
{
    let s = a + seq![c] + rest;
    crate::text::lemma_index_is(s, c, a.len() as int);
    crate::text::lemma_index_is(a, c, a.len() as int);
    assert(s.take(a.len() as int) =~= a);
    assert(s.skip(a.len() as int + 1) =~= rest);
}

proof fn lemma_octet(n: u8)
    ensures
        octet(crate::number::decimal(n as nat)) == Some(n),
        forall|i: int|
            0 <= i < crate::number::decimal(n as nat).len() ==> {
                let c = #[trigger] crate::number::decimal(n as nat)[i];
                c != '.' && c != ':'
            },
{
    let s = crate::number::decimal(n as nat);
    crate::number::lemma_decimal(n as nat);
    reveal_with_fuel(crate::number::decimal, 4);
    assert forall|i: int| 0 <= i < s.len() implies ({
        let c = #[trigger] s[i];
        c != '.' && c != ':'
    }) by {
        assert(crate::number::is_digit(s[i]));
    }
}

/// Four bytes are read back from their text.
proof fn lemma_v4_read_back(o: Seq<u8>)
    requires
        o.len() == 4,
    ensures
        parse_v4(v4_text(o)) == Some(o),
{
    let d0 = crate::number::decimal(o[0] as nat);
    let d1 = crate::number::decimal(o[1] as nat);
    let d2 = crate::number::decimal(o[2] as nat);
    let d3 = crate::number::decimal(o[3] as nat);
    lemma_octet(o[0]);
    lemma_octet(o[1]);
    lemma_octet(o[2]);
    lemma_octet(o[3]);
    let t2 = d2 + seq!['.'] + d3;
    let t1 = d1 + seq!['.'] + t2;
    lemma_split_first(d3, seq![], '.');
    lemma_split_first(d2, d3, '.');
    lemma_split_first(d1, t2, '.');
    lemma_split_first(d0, t1, '.');
    let p = crate::text::split(v4_text(o), '.');
    assert(p =~= seq![d0, d1, d2, d3]);
    assert(parse_v4(v4_text(o))->0 =~= o);
}

/// A group is read back from its text, which holds no dot and no colon.
proof fn lemma_group(n: u16)
    ensures
        group(hex_text(n as nat)) == Some(n),
        hex_text(n as nat).len() > 0,
        forall|i: int|
            0 <= i < hex_text(n as nat).len() ==> {
                let c = #[trigger] hex_text(n as nat)[i];
                c != '.' && c != ':'
            },
{
    lemma_hex_text(n as nat);
    reveal_with_fuel(hex_text, 5);
    let s = hex_text(n as nat);
    assert(s.len() <= 4);
    assert forall|i: int| 0 <= i < s.len() implies crate::types::is_hex(#[trigger] s[i]) by {
        assert(crate::types::is_lower_hex(s[i]));
    }
    assert forall|i: int| 0 <= i < s.len() implies ({
        let c = #[trigger] s[i];
        c != '.' && c != ':'
    }) by {
        assert(crate::types::is_lower_hex(s[i]));
    }
}

proof fn lemma_hex_text(n: nat)
    ensures
        hex_text(n).len() > 0,
        hex_number(hex_text(n)) == n,
        forall|i: int| 0 <= i < hex_text(n).len() ==> crate::types::is_lower_hex(#[trigger] hex_text(n)[i]),
    decreases n,
{
    let s = hex_text(n);
    if n < 16 {
        assert(s.drop_last() =~= seq![]);
        assert(hex_number(s.drop_last()) == 0);
    } else {
        lemma_hex_text(n / 16);
        assert(s.drop_last() =~= hex_text(n / 16));
        assert forall|i: int| 0 <= i < s.len() implies crate::types::is_lower_hex(#[trigger] s[i]) by {
            if i < s.len() - 1 {
                assert(s[i] == hex_text(n / 16)[i]);
            }
        }
    }
}

/// The pieces of some groups.
spec fn group_texts(g: Seq<u16>) -> Seq<Seq<char>> {
    Seq::new(g.len(), |i: int| hex_text(g[i] as nat))
}

/// The text of groups falls into the texts of the groups; it holds no dot, no two colons in a
/// row, and no colon at either end.
proof fn lemma_groups_text(g: Seq<u16>)
    requires
        g.len() > 0,
    ensures
        crate::text::split(groups_text(g), ':') == group_texts(g),
        groups_text(g).len() > 0,
        groups_text(g)[0] != ':',
        groups_text(g).last() != ':',
        forall|i: int| 0 <= i < groups_text(g).len() ==> groups_text(g)[i] != '.',
        forall|i: int|
            0 <= i < groups_text(g).len() - 1 ==> !(#[trigger] groups_text(g)[i] == ':' && groups_text(
                g,
            )[i + 1] == ':'),
    decreases g.len(),
{
    let s = groups_text(g);
    let first = hex_text(g[0] as nat);
    lemma_group(g[0]);
    if g.len() == 1 {
        lemma_split_first(first, seq![], ':');
        assert(group_texts(g) =~= seq![first]);
    } else {
        let rest = g.skip(1);
        lemma_groups_text(rest);
        let t = groups_text(rest);
        lemma_split_first(first, t, ':');
        assert(group_texts(g) =~= seq![first] + group_texts(rest));
        let n = first.len() as int;
        assert(s.last() == t.last());
        assert forall|i: int| 0 <= i < s.len() implies s[i] != '.' by {
            if i > n {
                assert(s[i] == t[i - n - 1]);
            }
        }
        assert forall|i: int| 0 <= i < s.len() - 1 implies !(#[trigger] s[i] == ':' && s[i + 1] == ':') by {
            if i > n {
                assert(s[i] == t[i - n - 1]);
                assert(s[i + 1] == t[i - n]);
            } else if i == n {
                assert(s[i + 1] == t[0]);
            }
        }
    }
}

/// The first two colons in a row stand where they stand.
proof fn lemma_gap_at(s: Seq<char>, k: int)
    requires
        0 <= k <= s.len(),
        forall|i: int| 0 <= i < k && i + 1 < s.len() ==> !(#[trigger] s[i] == ':' && s[i + 1] == ':'),
        k == s.len() || (k + 1 < s.len() && s[k] == ':' && s[k + 1] == ':'),
    ensures
        gap_at(s) == k,
    decreases s.len(),
{
    if s.len() >= 2 && k > 0 {
        let t = s.skip(1);
        assert(!(s[0] == ':' && s[1] == ':'));
        assert forall|i: int| 0 <= i < k - 1 && i + 1 < t.len() implies !(#[trigger] t[i] == ':' && t[i + 1]
            == ':') by {
            assert(t[i] == s[i + 1]);
            assert(t[i + 1] == s[i + 2]);
            assert(!(s[i + 1] == ':' && s[i + 2] == ':'));
        }
        lemma_gap_at(t, k - 1);
    }
}

proof fn lemma_no_dot(s: Seq<char>)
    requires
        forall|i: int| 0 <= i < s.len() ==> s[i] != '.',
    ensures
        parse_v4(s) is None,
{
    lemma_split_first(s, seq![], '.');
}

/// Groups are read back from their text, by themselves and in front of or behind a gap.
proof fn lemma_groups_read_back(g: Seq<u16>)
    ensures
        plain_groups(pieces(groups_text(g))) == Some(g),
        tail_groups(pieces(groups_text(g))) == Some(g),
{
    let p = pieces(groups_text(g));
    if g.len() == 0 {
        assert(plain_groups(p)->0 =~= g);
    } else {
        lemma_groups_text(g);
        assert forall|i: int| 0 <= i < p.len() implies group(#[trigger] p[i]) == Some(g[i]) by {
            lemma_group(g[i]);
        }
        assert(plain_groups(p)->0 =~= g);
        lemma_group(g.last());
        assert(p.last() == hex_text(g.last() as nat));
        lemma_no_dot(p.last());
    }
}

proof fn lemma_zeros_at(g: Seq<u16>, i: int)
    requires
        0 <= i <= g.len(),
    ensures
        0 <= zeros_at(g, i) <= g.len() - i,
        forall|j: int| i <= j < i + zeros_at(g, i) ==> g[j] == 0,
    decreases g.len() - i,
{
    if i < g.len() && g[i] == 0 {
        lemma_zeros_at(g, i + 1);
    }
}

proof fn lemma_longest_before(g: Seq<u16>, n: int)
    requires
        0 < n <= g.len(),
    ensures
        0 <= longest_before(g, n) < n,
    decreases n,
{
    if n > 1 {
        lemma_longest_before(g, n - 1);
    }
}

/// Eight groups with a gap are read back.
proof fn lemma_gap_read_back(g: Seq<u16>, start: int, length: int)
    requires
        g.len() == 8,
        0 <= start,
        length > 1,
        start + length <= 8,
        forall|j: int| start <= j < start + length ==> g[j] == 0,
    ensures
        parse_v6(groups_text(g.take(start)) + "::"@ + groups_text(g.skip(start + length))) == Some(g),
{
    let head = g.take(start);
    let tail = g.skip(start + length);
    let a = groups_text(head);
    let b = groups_text(tail);
    let s = a + "::"@ + b;
    reveal_strlit("::");
    let k = a.len() as int;
    if head.len() > 0 {
        lemma_groups_text(head);
    }
    assert forall|i: int| 0 <= i < k && i + 1 < s.len() implies !(#[trigger] s[i] == ':' && s[i + 1] == ':') by {
        assert(s[i] == a[i]);
        if i + 1 < k {
            assert(s[i + 1] == a[i + 1]);
            assert(!(a[i] == ':' && a[i + 1] == ':'));
        } else {
            assert(a[i] == a.last());
        }
    }
    lemma_gap_at(s, k);
    assert(s.take(k) =~= a);
    assert(s.skip(k + 2) =~= b);
    lemma_groups_read_back(head);
    lemma_groups_read_back(tail);
    assert(parse_v6(s)->0 =~= g);
}

/// Eight groups without a gap are read back.
proof fn lemma_full_read_back(g: Seq<u16>)
    requires
        g.len() == 8,
    ensures
        parse_v6(groups_text(g)) == Some(g),
{
    let s = groups_text(g);
    lemma_groups_text(g);
    lemma_gap_at(s, s.len() as int);
    lemma_groups_read_back(g);
}

/// The text of a mapped address is read back.
proof fn lemma_mapped_read_back(g: Seq<u16>)
    requires
        g.len() == 8,
        is_mapped(g),
    ensures
        parse_v6("::ffff:"@ + v4_text(mapped_bytes(g))) == Some(g),
        parse_v4("::ffff:"@ + v4_text(mapped_bytes(g))) is None,
{
    let o = mapped_bytes(g);
    let t = v4_text(o);
    let s = "::ffff:"@ + t;
    reveal_strlit("::ffff:");
    lemma_gap_at(s, 0);
    assert(s.take(0) =~= seq![]);
    let f = seq!['f', 'f', 'f', 'f'];
    let b = s.skip(2);
    assert(b =~= f + seq![':'] + t);
    lemma_split_first(f, t, ':');
    lemma_v4_read_back(o);
    let d0 = crate::number::decimal(o[0] as nat);
    let d1 = crate::number::decimal(o[1] as nat);
    let d2 = crate::number::decimal(o[2] as nat);
    let d3 = crate::number::decimal(o[3] as nat);
    lemma_octet(o[0]);
    lemma_octet(o[1]);
    lemma_octet(o[2]);
    lemma_octet(o[3]);
    assert forall|i: int| 0 <= i < t.len() implies t[i] != ':' by {
    }
    lemma_split_first(t, seq![], ':');
    let p = pieces(b);
    assert(p =~= seq![f, t]);
    assert(p.drop_last() =~= seq![f]);
    assert(p.last() == t);
    reveal_with_fuel(hex_number, 5);
    assert(f.drop_last() =~= seq!['f', 'f', 'f']);
    assert(f.drop_last().drop_last() =~= seq!['f', 'f']);
    assert(f.drop_last().drop_last().drop_last() =~= seq!['f']);
    assert(f.drop_last().drop_last().drop_last().drop_last() =~= seq![]);
    assert(hex_number(f) == 0xffff);
    assert(group(f) == Some(0xffffu16));
    assert(plain_groups(p.drop_last())->0 =~= seq![0xffffu16]);
    assert(v4_groups(o) =~= seq![g[6], g[7]]);
    assert(parse_v6(s)->0 =~= g);
    let first = "::ffff:"@ + d0;
    let rest = d1 + seq!['.'] + (d2 + seq!['.'] + d3);
    assert(s =~= first + seq!['.'] + rest);
    lemma_split_first(first, rest, '.');
    assert(first[0] == ':');
    assert(!crate::number::is_digit(first[0]));
    assert(octet(first) is None);
    assert(crate::text::split(s, '.')[0] == first);
}

/// The text of an address is read as that address.
pub proof fn text_is_read_back(v: IpView)
    requires
        match v {
            IpView::V4(o) => o.len() == 4,
            IpView::V6(g) => g.len() == 8,
        },
    ensures
        parse_ip(ip_text(v)) == Some(v),
{
    match v {
        IpView::V4(o) => lemma_v4_read_back(o),
        IpView::V6(g) => {
            let start = longest_before(g, 8);
            let length = zeros_at(g, start);
            lemma_longest_before(g, 8);
            lemma_zeros_at(g, start);
            let s = v6_text(g);
            if is_mapped(g) {
                lemma_mapped_read_back(g);
            } else if length > 1 {
                let head = g.take(start);
                let tail = g.skip(start + length);
                lemma_gap_read_back(g, start, length);
                reveal_strlit("::");
                if head.len() > 0 {
                    lemma_groups_text(head);
                }
                if tail.len() > 0 {
                    lemma_groups_text(tail);
                }
                lemma_no_dot(s);
            } else {
                lemma_groups_text(g);
                lemma_full_read_back(g);
                lemma_no_dot(s);
            }
        },
    }
}

// ---------------------------------------------------------------------------
// Executable operations
// ---------------------------------------------------------------------------

fn read_octet(s: &str) -> (r: Option<u8>)
    ensures
        r == octet(s@),
{
    let cs = crate::text::to_chars(s);
    if cs.len() < 1 || cs.len() > 3 {
        return None;
    }
    if cs.len() > 1 && cs[0] == '0' {
        return None;
    }
    let plus = cs[0] == '+';
    if plus {
        assert(!crate::number::is_digit(s@[0]));
        return None;
    }
    assert(crate::number::without_plus(s@) == s@);
    match crate::number::read_unsigned(s, 255) {
        Some(n) => Some(n as u8),
        None => None,
    }
}

fn read_v4(s: &str) -> (r: Option<[u8; 4]>)
    ensures
        match r {
            Some(o) => parse_v4(s@) == Some(o@),
            None => parse_v4(s@) is None,
        },
{
    let p = crate::text::split_on(s, '.');
    let ghost t = crate::text::texts(p@);
    if p.len() != 4 {
        return None;
    }
    match (
        read_octet(p[0].as_str()),
        read_octet(p[1].as_str()),
        read_octet(p[2].as_str()),
        read_octet(p[3].as_str()),
    ) {
        (Some(a), Some(b), Some(c), Some(d)) => {
            let o: [u8; 4] = [a, b, c, d];
            assert(o@ =~= seq![a, b, c, d]);
            Some(o)
        },
        _ => None,
    }
}

fn char_hex_value(c: char) -> (r: u16)
    requires
        crate::types::is_hex(c),
    ensures
        r == hex_digit(c),
        r < 16,
{
    if c >= '0' && c <= '9' {
        (c as u32 - '0' as u32) as u16
    } else if c >= 'a' && c <= 'f' {
        (c as u32 - 'a' as u32) as u16 + 10
    } else {
        (c as u32 - 'A' as u32) as u16 + 10
    }
}

fn read_group(s: &str) -> (r: Option<u16>)
    ensures
        r == group(s@),
{
    let cs = crate::text::to_chars(s);
    if cs.len() < 1 || cs.len() > 4 {
        return None;
    }
    let mut n: u32 = 0;
    let mut i: usize = 0;
    assert(s@.take(0) =~= seq![]);
    while i < cs.len()
        invariant
            cs@ == s@,
            i <= cs.len() <= 4,
            forall|j: int| 0 <= j < i ==> crate::types::is_hex(#[trigger] s@[j]),
            n == hex_number(s@.take(i as int)),
            i == 0 ==> n == 0,
            i == 1 ==> n < 0x10,
            i == 2 ==> n < 0x100,
            i == 3 ==> n < 0x1000,
            i == 4 ==> n < 0x10000,
        decreases cs.len() - i,
    {
        if !crate::types::char_is_hex(cs[i]) {
            assert(!crate::types::is_hex(s@[i as int]));
            return None;
        }
        assert(s@.take(i + 1).drop_last() =~= s@.take(i as int));
        n = n * 16 + char_hex_value(cs[i]) as u32;
        i += 1;
    }
    assert(s@.take(i as int) =~= s@);
    Some(n as u16)
}

fn read_groups(p: &Vec<String>, n: usize) -> (r: Option<Vec<u16>>)
    requires
        n <= p.len(),
    ensures
        match r {
            Some(g) => plain_groups(crate::text::texts(p@).take(n as int)) == Some(g@),
            None => plain_groups(crate::text::texts(p@).take(n as int)) is None,
        },
{
    let ghost t = crate::text::texts(p@).take(n as int);
    let mut out: Vec<u16> = Vec::new();
    let mut i: usize = 0;
    while i < n
        invariant
            i <= n <= p.len(),
            t == crate::text::texts(p@).take(n as int),
            out@.len() == i,
            forall|j: int| 0 <= j < i ==> group(#[trigger] t[j]) == Some(out@[j]),
        decreases n - i,
    {
        match read_group(p[i].as_str()) {
            Some(v) => {
                assert(t[i as int] == p@[i as int]@);
                out.push(v);
            },
            None => {
                assert(group(t[i as int]) is None);
                return None;
            },
        }
        i += 1;
    }
    assert(out@ =~= Seq::new(t.len(), |i: int| group(t[i])->0));
    Some(out)
}

fn read_tail(p: &Vec<String>) -> (r: Option<Vec<u16>>)
    ensures
        match r {
            Some(g) => tail_groups(crate::text::texts(p@)) == Some(g@),
            None => tail_groups(crate::text::texts(p@)) is None,
        },
{
    let ghost t = crate::text::texts(p@);
    let n: usize = p.len();
    if n > 0 {
        assert(t.last() == p@[n - 1]@);
        match read_v4(p[n - 1].as_str()) {
            Some(o) => {
                assert(t.drop_last() =~= t.take(n - 1));
                match read_groups(p, n - 1) {
                    Some(mut g) => {
                        let ghost before = g@;
                        g.push((o[0] as u16) * 256 + o[1] as u16);
                        g.push((o[2] as u16) * 256 + o[3] as u16);
                        assert(g@ =~= before + v4_groups(o@));
                        return Some(g);
                    },
                    None => return None,
                }
            },
            None => {},
        }
    }
    assert(t.take(n as int) =~= t);
    read_groups(p, n)
}

fn read_pieces(s: &str) -> (r: Vec<String>)
    ensures
        crate::text::texts(r@) == pieces(s@),
{
    if s.is_empty() {
        let r: Vec<String> = Vec::new();
        assert(crate::text::texts(r@) =~= seq![]);
        r
    } else {
        crate::text::split_on(s, ':')
    }
}

fn find_gap(cs: &Vec<char>) -> (r: usize)
    ensures
        r == gap_at(cs@),
        r < cs@.len() ==> r + 2 <= cs@.len(),
        r <= cs@.len(),
{
    let mut i: usize = 0;
    assert(cs@.skip(0) =~= cs@);
    while i < cs.len() && cs.len() - i >= 2
        invariant
            i <= cs.len(),
            i + gap_at(cs@.skip(i as int)) == gap_at(cs@),
        decreases cs.len() - i,
    {
        if cs[i] == ':' && cs[i + 1] == ':' {
            return i;
        }
        assert(cs@.skip(i as int).skip(1) =~= cs@.skip(i + 1));
        i += 1;
    }
    cs.len()
}

fn groups_array(g: &Vec<u16>) -> (r: [u16; 8])
    requires
        g@.len() == 8,
    ensures
        r@ == g@,
{
    let r: [u16; 8] = [g[0], g[1], g[2], g[3], g[4], g[5], g[6], g[7]];
    assert(r@ =~= g@);
    r
}

fn read_v6(s: &str) -> (r: Option<[u16; 8]>)
    ensures
        match r {
            Some(g) => parse_v6(s@) == Some(g@),
            None => parse_v6(s@) is None,
        },
{
    let cs = crate::text::to_chars(s);
    let i = find_gap(&cs);
    if i < cs.len() {
        let head_text = crate::text::substring(&cs, 0, i);
        let tail_text = crate::text::substring(&cs, i + 2, cs.len());
        assert(head_text@ =~= s@.take(i as int));
        assert(tail_text@ =~= s@.skip(i + 2));
        let head_pieces = read_pieces(head_text.as_str());
        let tail_pieces = read_pieces(tail_text.as_str());
        assert(crate::text::texts(head_pieces@).take(head_pieces@.len() as int)
            =~= crate::text::texts(head_pieces@));
        let n: usize = head_pieces.len();
        match (read_groups(&head_pieces, n), read_tail(&tail_pieces)) {
            (Some(head), Some(tail)) => {
                if head.len() > 7 || tail.len() > 7 - head.len() {
                    return None;
                }
                let mut g: Vec<u16> = Vec::new();
                let mut k: usize = 0;
                while k < 8
                    invariant
                        k <= 8,
                        g@.len() == k,
                        head@.len() + tail@.len() <= 7,
                        forall|j: int|
                            0 <= j < k ==> #[trigger] g@[j] == (if j < head@.len() {
                                head@[j]
                            } else if j < 8 - tail@.len() {
                                0
                            } else {
                                tail@[j - (8 - tail@.len())]
                            }),
                    decreases 8 - k,
                {
                    if k < head.len() {
                        g.push(head[k]);
                    } else if k < 8 - tail.len() {
                        g.push(0);
                    } else {
                        g.push(tail[k - (8 - tail.len())]);
                    }
                    k += 1;
                }
                assert(g@ =~= head@ + Seq::new(
                    (8 - head@.len() - tail@.len()) as nat,
                    |k: int| 0u16,
                ) + tail@);
                Some(groups_array(&g))
            },
            _ => None,
        }
    } else {
        let p = crate::text::split_on(s, ':');
        match read_tail(&p) {
            Some(g) => {
                if g.len() == 8 {
                    Some(groups_array(&g))
                } else {
                    None
                }
            },
            None => None,
        }
    }
}

impl IpAddr {
    /// The address that a text writes.
    pub fn parse(s: &str) -> (r: Option<IpAddr>)
        ensures
            match r {
                Some(ip) => parse_ip(s@) == Some(ip@),
                None => parse_ip(s@) is None,
            },
    {
        match read_v4(s) {
            Some(o) => Some(IpAddr::V4(o)),
            None => match read_v6(s) {
                Some(g) => Some(IpAddr::V6(g)),
                None => None,
            },
        }
    }

    /// The address as text.
    pub fn to_text(&self) -> (r: String)
        ensures
            r@ == ip_text(self@),
    {
        let mut out = String::new();
        match self {
            IpAddr::V4(o) => {
                push_v4(&mut out, o);
                assert(out@ =~= v4_text(o@));
            },
            IpAddr::V6(g) => {
                push_v6(&mut out, g);
                assert(out@ =~= v6_text(g@));
            },
        }
        out
    }

    /// Whether two addresses are the same.
    pub fn same(&self, other: &IpAddr) -> (r: bool)
        ensures
            r == (self@ == other@),
    {
        match (self, other) {
            (IpAddr::V4(a), IpAddr::V4(b)) => {
                let r = a[0] == b[0] && a[1] == b[1] && a[2] == b[2] && a[3] == b[3];
                proof {
                    if r {
                        assert(a@ =~= b@);
                    }
                }
                r
            },
            (IpAddr::V6(a), IpAddr::V6(b)) => {
                let r = a[0] == b[0] && a[1] == b[1] && a[2] == b[2] && a[3] == b[3] && a[4] == b[4]
                    && a[5] == b[5] && a[6] == b[6] && a[7] == b[7];
                proof {
                    if r {
                        assert(a@ =~= b@);
                    }
                }
                r
            },
            _ => false,
        }
    }
}

fn push_v4(out: &mut String, o: &[u8; 4])
    ensures
        final(out)@ == old(out)@ + v4_text(o@),
{
    let ghost before = out@;
    crate::number::push_decimal(out, o[0] as u64);
    out.push('.');
    crate::number::push_decimal(out, o[1] as u64);
    out.push('.');
    crate::number::push_decimal(out, o[2] as u64);
    out.push('.');
    crate::number::push_decimal(out, o[3] as u64);
    assert(out@ =~= before + v4_text(o@));
}

fn push_hex(out: &mut String, n: u16)
    ensures
        final(out)@ == old(out)@ + hex_text(n as nat),
    decreases n,
{
    let ghost before = out@;
    if n >= 16 {
        push_hex(out, n / 16);
    }
    let d: u8 = (n % 16) as u8;
    if d < 10 {
        out.push((48 + d) as char);
    } else {
        out.push((87 + d) as char);
    }
    assert(out@ =~= before + hex_text(n as nat));
}

fn push_groups(out: &mut String, g: &[u16; 8], from: usize, to: usize)
    requires
        from <= to <= 8,
    ensures
        final(out)@ == old(out)@ + groups_text(g@.subrange(from as int, to as int)),
    decreases to - from,
{
    let ghost before = out@;
    let ghost s = g@.subrange(from as int, to as int);
    if from < to {
        push_hex(out, g[from]);
        if to - from > 1 {
            out.push(':');
            push_groups(out, g, from + 1, to);
            assert(s.skip(1) =~= g@.subrange(from + 1, to as int));
        }
    }
    assert(out@ =~= before + groups_text(s));
}

fn count_zeros(g: &[u16; 8], i: usize) -> (r: usize)
    requires
        i <= 8,
    ensures
        r == zeros_at(g@, i as int),
        i + r <= 8,
    decreases 8 - i,
{
    if i < 8 && g[i] == 0 {
        1 + count_zeros(g, i + 1)
    } else {
        0
    }
}

fn find_longest(g: &[u16; 8]) -> (r: usize)
    ensures
        r == longest_before(g@, 8),
        r < 8,
{
    let mut best: usize = 0;
    let mut n: usize = 1;
    while n < 8
        invariant
            1 <= n <= 8,
            best < 8,
            best == longest_before(g@, n as int),
        decreases 8 - n,
    {
        if count_zeros(g, n) > count_zeros(g, best) {
            best = n;
        }
        n += 1;
    }
    best
}

fn groups_are_mapped(g: &[u16; 8]) -> (r: bool)
    ensures
        r == is_mapped(g@),
{
    g[0] == 0 && g[1] == 0 && g[2] == 0 && g[3] == 0 && g[4] == 0 && g[5] == 0xffff
}

fn last_bytes(g: &[u16; 8]) -> (r: [u8; 4])
    ensures
        r@ == mapped_bytes(g@),
{
    let r: [u8; 4] = [
        (g[6] / 256) as u8,
        (g[6] % 256) as u8,
        (g[7] / 256) as u8,
        (g[7] % 256) as u8,
    ];
    assert(r@ =~= mapped_bytes(g@));
    r
}

fn push_v6(out: &mut String, g: &[u16; 8])
    ensures
        final(out)@ == old(out)@ + v6_text(g@),
{
    let ghost before = out@;
    if groups_are_mapped(g) {
        out.append("::ffff:");
        let o = last_bytes(g);
        push_v4(out, &o);
        assert(out@ =~= before + v6_text(g@));
        return ;
    }
    let start = find_longest(g);
    let length = count_zeros(g, start);
    if length > 1 {
        push_groups(out, g, 0, start);
        out.append("::");
        push_groups(out, g, start + length, 8);
        assert(g@.subrange(0, start as int) =~= g@.take(start as int));
        assert(g@.subrange(start + length, 8) =~= g@.skip(start + length));
        assert(out@ =~= before + v6_text(g@));
    } else {
        push_groups(out, g, 0, 8);
        assert(g@.subrange(0, 8) =~= g@);
        assert(out@ =~= before + v6_text(g@));
    }
}

/// Normalize an IP address for comparison: maps IPv4-mapped IPv6 addresses
/// (e.g. `::ffff:1.2.3.4`) to plain IPv4. Needed when the server listens on
/// `[::]` (dual-stack) and receives IPv4 connections as mapped addresses.
pub fn normalize_ip(addr: IpAddr) -> (r: IpAddr)
    ensures
        r@ == normalized(addr@),
{
    match addr {
        IpAddr::V6(g) => {
            if groups_are_mapped(&g) {
                IpAddr::V4(last_bytes(&g))
            } else {
                IpAddr::V6(g)
            }
        },
        IpAddr::V4(o) => IpAddr::V4(o),
    }
}

} // verus!
