//! How addresses, servers and ranges are written and read.

use vstd::prelude::*;
use crate::ip::IpView;

verus! {

/// An address of four numbers is written and read with dots between them.
pub proof fn four_numbers_are_an_address(a: u8, b: u8, c: u8, d: u8)
    ensures
        ({
            let text = crate::number::decimal(a as nat) + seq!['.'] + crate::number::decimal(b as nat)
                + seq!['.'] + crate::number::decimal(c as nat) + seq!['.'] + crate::number::decimal(d as nat);
            &&& crate::ip::ip_text(IpView::V4(seq![a, b, c, d])) == text
            &&& crate::ip::parse_ip(text) == Some(IpView::V4(seq![a, b, c, d]))
        }),
{
    let text = crate::number::decimal(a as nat) + seq!['.'] + crate::number::decimal(b as nat) + seq!['.']
        + crate::number::decimal(c as nat) + seq!['.'] + crate::number::decimal(d as nat);
    let v = IpView::V4(seq![a, b, c, d]);
    assert(crate::ip::ip_text(v) =~= text);
    crate::ip::text_is_read_back(v);
}

/// A number in an address is read where it is at most 255 and written without a nought in front.
pub proof fn numbers_of_addresses_are_small(n: nat)
    ensures
        n <= 255 ==> crate::ip::octet(crate::number::decimal(n)) == Some(n as u8),
        n > 255 ==> crate::ip::octet(crate::number::decimal(n)) is None,
        crate::ip::octet(seq!['0'] + crate::number::decimal(n)) is None,
        crate::ip::octet(seq![]) is None,
{
    crate::number::lemma_decimal(n);
    let z = seq!['0'] + crate::number::decimal(n);
    assert(z[0] == '0' && z.len() > 1);
    if n <= 255 {
        reveal_with_fuel(crate::number::decimal, 4);
        let s = crate::number::decimal(n);
        assert(s.len() <= 3);
        if n >= 100 {
            assert(s[0] == crate::number::digit_char(n / 10 / 10));
        } else if n >= 10 {
            assert(s[0] == crate::number::digit_char(n / 10));
        }
    }
}

/// An address that carries four numbers is taken as them; any other stays as it is.
pub proof fn mapped_addresses_are_unwrapped(a: u8, b: u8, c: u8, d: u8, g: Seq<u16>, o: Seq<u8>)
    requires
        g.len() == 8,
    ensures
        crate::ip::normalized(
            IpView::V6(
                seq![0u16, 0, 0, 0, 0, 0xffff, (a as int * 256 + b) as u16, (c as int * 256 + d) as u16],
            ),
        ) == IpView::V4(seq![a, b, c, d]),
        g[5] != 0xffff || g[0] != 0 || g[1] != 0 || g[2] != 0 || g[3] != 0 || g[4] != 0
            ==> crate::ip::normalized(IpView::V6(g)) == IpView::V6(g),
        crate::ip::normalized(IpView::V4(o)) == IpView::V4(o),
{
    let m = seq![0u16, 0, 0, 0, 0, 0xffff, (a as int * 256 + b) as u16, (c as int * 256 + d) as u16];
    assert(crate::ip::mapped_bytes(m) =~= seq![a, b, c, d]);
}

/// A row of noughts begins where it is said to, and ends before another number or at the end.
pub proof fn rows_of_noughts_are_counted(g: Seq<u16>, i: int)
    requires
        0 <= i <= g.len(),
    ensures
        ({
            let n = crate::ip::zeros_at(g, i);
            &&& 0 <= n && i + n <= g.len()
            &&& forall|j: int| i <= j < i + n ==> #[trigger] g[j] == 0
            &&& i + n < g.len() ==> g[i + n] != 0
        }),
    decreases g.len() - i,
{
    if i < g.len() && g[i] == 0 {
        rows_of_noughts_are_counted(g, i + 1);
    }
}

/// The row of noughts that a text leaves out is the first of the longest.
pub proof fn longest_row_is_left_out(g: Seq<u16>, n: int)
    requires
        n >= 1,
    ensures
        ({
            let start = crate::ip::longest_before(g, n);
            &&& 0 <= start < n
            &&& forall|i: int| 0 <= i < n ==> #[trigger] crate::ip::zeros_at(g, i) <= crate::ip::zeros_at(
                g,
                start,
            )
            &&& forall|i: int| 0 <= i < start ==> #[trigger] crate::ip::zeros_at(g, i) < crate::ip::zeros_at(
                g,
                start,
            )
        }),
    decreases n,
{
    if n > 1 {
        longest_row_is_left_out(g, n - 1);
    }
}

// ---------------------------------------------------------------------------
// Servers
// ---------------------------------------------------------------------------

/// The texts of some addresses.
pub open spec fn texts_of(ips: Seq<IpView>) -> Seq<Seq<char>> {
    Seq::new(ips.len(), |i: int| crate::ip::ip_text(ips[i]))
}

/// An address of four bytes or of eight groups.
pub open spec fn is_whole(ip: IpView) -> bool {
    match ip {
        IpView::V4(o) => o.len() == 4,
        IpView::V6(g) => g.len() == 8,
    }
}

proof fn lemma_servers(ips: Seq<IpView>)
    requires
        forall|i: int| 0 <= i < ips.len() ==> is_whole(#[trigger] ips[i]),
    ensures
        crate::config::servers_in(texts_of(ips)) == Seq::new(
            ips.len(),
            |i: int| crate::ip::normalized(ips[i]),
        ),
    decreases ips.len(),
{
    let all = Seq::new(ips.len(), |i: int| crate::ip::normalized(ips[i]));
    if ips.len() == 0 {
        assert(all =~= seq![]);
    } else {
        let less = ips.drop_last();
        assert forall|i: int| 0 <= i < less.len() implies is_whole(#[trigger] less[i]) by {
            assert(less[i] == ips[i]);
        }
        lemma_servers(less);
        let last = ips[ips.len() - 1];
        assert(is_whole(last));
        crate::ip::text_is_read_back(last);
        lemma_address_text(last);
        assert(texts_of(ips).drop_last() =~= texts_of(less));
        assert(texts_of(ips).last() == crate::ip::ip_text(last));
        assert(Seq::new(less.len(), |i: int| crate::ip::normalized(less[i])).push(crate::ip::normalized(last))
            =~= all);
    }
}

proof fn lemma_address_text(ip: IpView)
    ensures
        crate::text::trim(crate::ip::ip_text(ip)) == crate::ip::ip_text(ip),
        !crate::ip::ip_text(ip).contains(';'),
{
    let s = crate::ip::ip_text(ip);
    crate::ip::ip_text_is_lower_case(ip);
    assert forall|i: int| 0 <= i < s.len() implies !crate::text::is_space(#[trigger] s[i]) && s[i] != ';' by {
        assert(crate::types::is_lower_hex(s[i]) || s[i] == '.' || s[i] == ':');
    }
    if s.len() > 0 {
        assert(s[s.len() - 1] == s.last());
    }
    crate::text::lemma_trim_kept(s);
}

/// The servers that a setting lists, with semicolons between them, are those addresses in that
/// order, each in its normal form.
pub proof fn listed_servers_are_read(ips: Seq<IpView>)
    requires
        ips.len() > 0,
        forall|i: int| 0 <= i < ips.len() ==> is_whole(#[trigger] ips[i]),
    ensures
        crate::config::servers_in(
            crate::text::split(crate::text::join(texts_of(ips), seq![';']), ';'),
        ) == Seq::new(ips.len(), |i: int| crate::ip::normalized(ips[i])),
{
    let t = texts_of(ips);
    assert forall|i: int| 0 <= i < t.len() implies !(#[trigger] t[i]).contains(';') by {
        lemma_address_text(ips[i]);
    }
    crate::text::lemma_split_of_joined(t, ';');
    lemma_servers(ips);
}

/// A host that is an address is kept in its normal form, and any other as it is.
pub proof fn hosts_are_kept(ip: IpView, name: Seq<char>)
    requires
        is_whole(ip),
    ensures
        crate::config::host_of(crate::ip::ip_text(ip)) == crate::ip::ip_text(crate::ip::normalized(ip)),
        crate::ip::parse_ip(name) is None ==> crate::config::host_of(name) == name,
{
    crate::ip::text_is_read_back(ip);
}

// ---------------------------------------------------------------------------
// Ranges
// ---------------------------------------------------------------------------

/// The ranges that are read from some pieces are the pieces of four bytes, each once, in the order
/// of their first places.
pub proof fn ranges_are_read_once(pieces: Seq<Seq<char>>, r: Seq<char>)
    ensures
        crate::config::ranges_in(pieces).no_duplicates(),
        crate::config::ranges_in(pieces).contains(r) <==> pieces.contains(r) && vstd::utf8::encode_utf8(r).len()
            == 4,
    decreases pieces.len(),
{
    let all = crate::config::ranges_in(pieces);
    if pieces.len() > 0 {
        let less = pieces.drop_last();
        let last = pieces.last();
        let before = crate::config::ranges_in(less);
        ranges_are_read_once(less, r);
        ranges_are_read_once(less, last);
        assert(pieces[pieces.len() - 1] == last);
        if pieces.contains(r) && r != last {
            let i = choose|i: int| 0 <= i < pieces.len() && pieces[i] == r;
            assert(less[i] == r);
        }
        if less.contains(r) {
            let i = choose|i: int| 0 <= i < less.len() && less[i] == r;
            assert(pieces[i] == r);
        }
        if all.len() > before.len() {
            assert(all == before.push(last));
            assert(all[all.len() - 1] == last);
            if before.contains(r) {
                let i = choose|i: int| 0 <= i < before.len() && before[i] == r;
                assert(all[i] == r);
            }
            if all.contains(r) && r != last {
                let i = choose|i: int| 0 <= i < all.len() && all[i] == r;
                assert(before[i] == r);
            }
            assert forall|i: int, j: int| 0 <= i < all.len() && 0 <= j < all.len() && i != j implies all[i]
                != all[j] by {
                if i < before.len() {
                    assert(before.contains(before[i]));
                }
                if j < before.len() {
                    assert(before.contains(before[j]));
                }
            }
        }
    }
}

/// The ranges that a setting lists, with semicolons between them, are those ranges in that order.
pub proof fn listed_ranges_are_read(ranges: Seq<Seq<char>>)
    requires
        ranges.len() > 0,
        ranges.no_duplicates(),
        forall|i: int|
            0 <= i < ranges.len() ==> vstd::utf8::encode_utf8(#[trigger] ranges[i]).len() == 4
                && !ranges[i].contains(';'),
    ensures
        crate::config::ranges_in(crate::text::split(crate::text::join(ranges, seq![';']), ';')) == ranges,
{
    assert forall|i: int| 0 <= i < ranges.len() implies !(#[trigger] ranges[i]).contains(';') by {
        assert(vstd::utf8::encode_utf8(ranges[i]).len() == 4);
    }
    crate::text::lemma_split_of_joined(ranges, ';');
    lemma_ranges(ranges);
}

proof fn lemma_ranges(ranges: Seq<Seq<char>>)
    requires
        ranges.no_duplicates(),
        forall|i: int| 0 <= i < ranges.len() ==> vstd::utf8::encode_utf8(#[trigger] ranges[i]).len() == 4,
    ensures
        crate::config::ranges_in(ranges) == ranges,
    decreases ranges.len(),
{
    if ranges.len() > 0 {
        let less = ranges.drop_last();
        assert forall|i: int| 0 <= i < less.len() implies vstd::utf8::encode_utf8(#[trigger] less[i]).len() == 4 by {
            assert(less[i] == ranges[i]);
        }
        lemma_ranges(less);
        let n = ranges.len() - 1;
        assert(vstd::utf8::encode_utf8(ranges[n]).len() == 4);
        if less.contains(ranges.last()) {
            let i = choose|i: int| 0 <= i < less.len() && less[i] == ranges.last();
            assert(ranges[i] == ranges[n]);
        }
        assert(less.push(ranges.last()) =~= ranges);
    } else {
        assert(crate::config::ranges_in(ranges) =~= ranges);
    }
}

} // verus!
