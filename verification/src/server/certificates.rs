//! Which certificates the server takes.

use vstd::prelude::*;
use crate::error::ErrorView;

verus! {

/// A certificate has issued another where the names match, it is one of an authority, its key is not
/// kept from signing certificates, and it has signed the other; where one of these does not hold, or
/// cannot be read, it has not.
pub proof fn issuers_are_authorities(
    issued_to: bool,
    authority: Result<Option<bool>, Seq<char>>,
    may_sign: Result<Option<bool>, Seq<char>>,
    signed: bool,
)
    ensures
        ({
            let r = crate::server::tls::issuer_answer(issued_to, authority, may_sign, signed);
            &&& r == Ok::<bool, ErrorView>(true) <==> {
                &&& issued_to
                &&& signed
                &&& authority is Ok && authority->Ok_0 == Some(true)
                &&& may_sign is Ok && may_sign->Ok_0 != Some(false)
            }
            &&& r is Err <==> issued_to && (authority is Err || (authority->Ok_0 == Some(true)
                && may_sign is Err))
        }),
{
}

/// Of some verdicts without errors, the only yes is picked; without any yes nothing is, and two are
/// an error.
pub proof fn only_yes_is_picked(verdicts: Seq<Result<bool, ErrorView>>, twice: Seq<char>, i: int, j: int)
    requires
        forall|k: int| 0 <= k < verdicts.len() ==> (#[trigger] verdicts[k]) is Ok,
    ensures
        ({
            let yes = Ok::<bool, ErrorView>(true);
            let r = crate::server::tls::picked(verdicts, 0, None, twice);
            &&& 0 <= i < verdicts.len() && verdicts[i] == yes && (forall|k: int|
                0 <= k < verdicts.len() && k != i ==> #[trigger] verdicts[k] != yes) ==> r == Ok::<
                Option<int>,
                ErrorView,
            >(Some(i))
            &&& (forall|k: int| 0 <= k < verdicts.len() ==> #[trigger] verdicts[k] != yes) ==> r == Ok::<
                Option<int>,
                ErrorView,
            >(None)
            &&& 0 <= i < j < verdicts.len() && verdicts[i] == yes && verdicts[j] == yes ==> r == Err::<
                Option<int>,
                ErrorView,
            >(ErrorView::Tls(twice))
        }),
{
    let yes = Ok::<bool, ErrorView>(true);
    if 0 <= i < verdicts.len() && verdicts[i] == yes && forall|k: int|
        0 <= k < verdicts.len() && k != i ==> #[trigger] verdicts[k] != yes {
        lemma_one(verdicts, 0, twice, i);
    }
    if forall|k: int| 0 <= k < verdicts.len() ==> #[trigger] verdicts[k] != yes {
        lemma_none(verdicts, 0, None, twice);
    }
    if 0 <= i < j < verdicts.len() && verdicts[i] == yes && verdicts[j] == yes {
        lemma_two(verdicts, 0, None, twice, i, j);
    }
}

proof fn lemma_none(verdicts: Seq<Result<bool, ErrorView>>, from: int, found: Option<int>, twice: Seq<char>)
    requires
        0 <= from,
        forall|k: int| 0 <= k < verdicts.len() ==> (#[trigger] verdicts[k]) is Ok,
        forall|k: int|
            from <= k < verdicts.len() ==> #[trigger] verdicts[k] != Ok::<bool, ErrorView>(true),
    ensures
        crate::server::tls::picked(verdicts, from, found, twice) == Ok::<Option<int>, ErrorView>(found),
    decreases verdicts.len() - from,
{
    if from < verdicts.len() {
        assert(verdicts[from] is Ok);
        lemma_none(verdicts, from + 1, found, twice);
    }
}

proof fn lemma_one(verdicts: Seq<Result<bool, ErrorView>>, from: int, twice: Seq<char>, i: int)
    requires
        0 <= from <= i < verdicts.len(),
        forall|k: int| 0 <= k < verdicts.len() ==> (#[trigger] verdicts[k]) is Ok,
        verdicts[i] == Ok::<bool, ErrorView>(true),
        forall|k: int|
            0 <= k < verdicts.len() && k != i ==> #[trigger] verdicts[k] != Ok::<bool, ErrorView>(true),
    ensures
        crate::server::tls::picked(verdicts, from, None, twice) == Ok::<Option<int>, ErrorView>(Some(i)),
    decreases verdicts.len() - from,
{
    if from == i {
        lemma_none(verdicts, i + 1, Some(i), twice);
    } else {
        assert(verdicts[from] is Ok);
        lemma_one(verdicts, from + 1, twice, i);
    }
}

proof fn lemma_two(
    verdicts: Seq<Result<bool, ErrorView>>,
    from: int,
    found: Option<int>,
    twice: Seq<char>,
    i: int,
    j: int,
)
    requires
        forall|k: int| 0 <= k < verdicts.len() ==> (#[trigger] verdicts[k]) is Ok,
        0 <= from <= j < verdicts.len(),
        verdicts[j] == Ok::<bool, ErrorView>(true),
        found is Some || (from <= i < j && verdicts[i] == Ok::<bool, ErrorView>(true)),
    ensures
        crate::server::tls::picked(verdicts, from, found, twice) == Err::<Option<int>, ErrorView>(
            ErrorView::Tls(twice),
        ),
    decreases verdicts.len() - from,
{
    assert(verdicts[from] is Ok);
    if verdicts[from] == Ok::<bool, ErrorView>(true) {
        if found is None {
            lemma_two(verdicts, from + 1, Some(from), twice, i, j);
        }
    } else {
        lemma_two(verdicts, from + 1, found, twice, i, j);
    }
}

/// A certificate of the private key and its issuer are put in that order, whichever of them comes
/// first.
pub proof fn two_certificates_are_ordered(leaf: Seq<u8>, issuer: Seq<u8>, key: Seq<u8>, public: Seq<u8>)
    ensures
        ({
            &&& crate::server::tls::public_key_of(key) == Ok::<Option<Seq<u8>>, Seq<char>>(Some(public))
            &&& crate::server::tls::certificate_error(leaf) is None
            &&& crate::server::tls::certificate_error(issuer) is None
            &&& crate::server::tls::certificate_key(leaf) == Some(public)
            &&& crate::server::tls::certificate_key(issuer) != Some(public)
            &&& crate::server::tls::valid_issuer(leaf, issuer) == Ok::<bool, ErrorView>(true)
        }) ==> {
            let ordered = Ok::<Seq<Seq<u8>>, ErrorView>(seq![leaf, issuer]);
            &&& crate::server::tls::ordered_chain(seq![leaf, issuer], key) == ordered
            &&& crate::server::tls::ordered_chain(seq![issuer, leaf], key) == ordered
        },
{
    if crate::server::tls::public_key_of(key) == Ok::<Option<Seq<u8>>, Seq<char>>(Some(public))
        && crate::server::tls::certificate_error(leaf) is None && crate::server::tls::certificate_error(
        issuer,
    ) is None && crate::server::tls::certificate_key(leaf) == Some(public)
        && crate::server::tls::certificate_key(issuer) != Some(public) && crate::server::tls::valid_issuer(
        leaf,
        issuer,
    ) == Ok::<bool, ErrorView>(true) {
        let a = seq![leaf, issuer];
        let b = seq![issuer, leaf];
        let twice = "multiple PKCS12 certificates match the private key"@;
        let va = crate::server::tls::leaf_verdicts(a, public);
        let vb = crate::server::tls::leaf_verdicts(b, public);
        assert(va[0] == Ok::<bool, ErrorView>(true) && va[1] == Ok::<bool, ErrorView>(false));
        assert(vb[0] == Ok::<bool, ErrorView>(false) && vb[1] == Ok::<bool, ErrorView>(true));
        lemma_one(va, 0, twice, 0);
        lemma_one(vb, 0, twice, 1);
        assert(a.remove(0) =~= seq![issuer]);
        assert(b.remove(1) =~= seq![issuer]);
        let rest = seq![issuer];
        let v = crate::server::tls::issuer_verdicts(rest, leaf);
        assert(v[0] == Ok::<bool, ErrorView>(true));
        lemma_one(v, 0, "multiple PKCS12 certificates can issue the same child certificate"@, 0);
        assert(rest.remove(0) =~= seq![]);
        let one = seq![leaf];
        assert(one.push(issuer) =~= a);
        assert(one.last() == leaf);
        assert(crate::server::tls::chain_from(a, rest.remove(0)) == Ok::<Seq<Seq<u8>>, ErrorView>(a));
        assert(crate::server::tls::chain_from(one, rest) == Ok::<Seq<Seq<u8>>, ErrorView>(a));
    }
}

/// An archive is taken where it can be read, is intact, and holds one private key; its certificates
/// come with it. Nothing else is.
pub proof fn archives_hold_one_key(
    error: Option<Seq<char>>,
    intact: bool,
    keys: Result<Seq<Seq<u8>>, Seq<char>>,
    certs: Result<Seq<Seq<u8>>, Seq<char>>,
)
    ensures
        ({
            let r = crate::server::tls::archive_answer(error, intact, keys, certs);
            &&& r is Ok <==> error is None && intact && keys is Ok && certs is Ok && keys->Ok_0.len() == 1
            &&& r is Ok ==> r->Ok_0 == (keys->Ok_0[0], certs->Ok_0)
        }),
{
}

/// A character of a password is one unit of sixteen bits, or two for those that do not fit, each with
/// its high byte first.
pub proof fn passwords_are_in_units(c: char)
    ensures
        ({
            let b = crate::server::tls::utf16(c);
            &&& (c as u32) < 0x1_0000 ==> b.len() == 2 && 256 * b[0] + b[1] == c as int
            &&& c as u32 >= 0x1_0000 ==> b.len() == 4 && {
                let high = 256 * b[0] + b[1];
                let low = 256 * b[2] + b[3];
                &&& 0xd800 <= high <= 0xdbff
                &&& 0xdc00 <= low <= 0xdfff
                &&& (high - 0xd800) * 0x400 + (low - 0xdc00) + 0x1_0000 == c as int
            }
        }),
{
}

/// A password is its characters in their order and two bytes nought behind them.
pub proof fn passwords_end_with_noughts(s: Seq<char>, c: char)
    ensures
        crate::server::tls::all_utf16(s.push(c)) == crate::server::tls::all_utf16(s)
            + crate::server::tls::utf16(c),
        crate::server::tls::password_bytes(s) == crate::server::tls::all_utf16(s) + seq![0u8, 0u8],
        crate::server::tls::password_bytes(seq![]) == seq![0u8, 0u8],
{
    assert(s.push(c).drop_last() =~= s);
    assert(crate::server::tls::all_utf16(seq![]) =~= Seq::<u8>::empty());
    assert(crate::server::tls::password_bytes(seq![]) =~= seq![0u8, 0u8]);
}

/// A certificate is past use when it expires within the next 86,400 seconds, or has expired.
pub proof fn certificates_are_renewed_a_day_before(expiry: i64, now: i64)
    requires
        now <= i64::MAX - 86_400,
    ensures
        crate::server::tls::is_past_use(expiry, now) <==> expiry - now < 86_400,
{
}

/// The server takes an archive whose first certificate has a day or more before it, with its chain,
/// its key and its end; a certificate that is past use is refused.
pub proof fn past_certificates_are_refused(
    data: Seq<u8>,
    password: Seq<char>,
    chain: Seq<Seq<u8>>,
    key: Seq<u8>,
    expiry: i64,
    now: i64,
)
    requires
        0 <= now <= i64::MAX - 86_400,
    ensures
        crate::server::tls::parsed_archive(data, password) == Ok::<(Seq<Seq<u8>>, Seq<u8>), ErrorView>(
            (chain, key),
        ) && crate::server::tls::certificate_end(chain[0]) == Ok::<i64, Seq<char>>(expiry)
            ==> crate::server::tls::loaded_certificate(data, password, now) == (if expiry >= now + 86_400 {
            Ok::<(Seq<Seq<u8>>, Seq<u8>, i64), ErrorView>((chain, key, expiry))
        } else {
            Err::<(Seq<Seq<u8>>, Seq<u8>, i64), ErrorView>(ErrorView::CertExpired)
        }),
{
}

/// The end of a certificate that can be read is taken as it is; one that cannot is an error that
/// tells why.
pub proof fn readable_ends_are_taken(t: i64, e: Seq<char>)
    ensures
        crate::server::tls::end_answer(Ok(t)) == Ok::<i64, ErrorView>(t),
        crate::server::tls::end_answer(Err(e)) == Err::<i64, ErrorView>(
            ErrorView::Tls("invalid leaf certificate: "@ + e),
        ),
{
}

/// The public key of a private key is taken where there is one; otherwise it is an error.
pub proof fn public_keys_are_taken(public: Seq<u8>, e: Seq<char>)
    ensures
        crate::server::tls::key_answer(Ok(Some(public))) == Ok::<Seq<u8>, ErrorView>(public),
        crate::server::tls::key_answer(Ok(None)) is Err,
        crate::server::tls::key_answer(Err(e)) == Err::<Seq<u8>, ErrorView>(
            ErrorView::Tls("invalid PKCS12 private key: "@ + e),
        ),
{
}

/// A count of rounds is feasible up to 1,152,921,504,606,846,976 and not above.
pub proof fn large_counts_are_not_feasible(d: Seq<u8>, i: int, p: Seq<u8>, salt: int, count: int, start: int, end: int)
    requires
        crate::server::der::opened(d, i) == Some((p, salt)),
        crate::server::der::behind(p, salt) == Some(count),
        crate::server::der::contents(p, count) == Some((start, end)),
    ensures
        crate::server::der::is_feasible_count(d, i) <==> crate::server::der::number(p.subrange(start, end))
            <= 1_152_921_504_606_846_976,
{
}

} // verus!
