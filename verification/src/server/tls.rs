//! The certificate of the server: reading it, and putting its chain in order.

use vstd::prelude::*;
use crate::error::{ErrorView, HathError};

verus! {

pub const SECS_PER_DAY: i64 = 86400;

/// A certificate that expires within this time is not used any more.
pub const CERT_RENEWAL_WINDOW_SECS: i64 = SECS_PER_DAY;

/// Blobs as sequences of bytes.
pub open spec fn blobs(v: Seq<Vec<u8>>) -> Seq<Seq<u8>> {
    Seq::new(v.len(), |i: int| v[i]@)
}

// ---------------------------------------------------------------------------
// Archives
// ---------------------------------------------------------------------------
// `p12` passes over elements that it does not know with sums that can overflow, holds a few
// fields that it does not use against their usual values with debug assertions, and works on a
// password as often as the archive tells. So an archive is put into its usual form and looked
// over before it is read.

/// Why some bytes are no PKCS12 archive, if they are none.
pub uninterp spec fn archive_error(data: Seq<u8>) -> Option<Seq<char>>;

/// `p12::PFX::parse`: whether the bytes are an archive, and why not, is a function of them.
/// Elements that it passes over and whose ends are no `usize`, and encrypted data of another
/// version or type than the usual ones, would stop it.
#[verifier::external_body]
fn parse_archive(data: &[u8]) -> (r: Option<String>)
    requires
        crate::server::der::is_safe_archive(data@),
        crate::server::der::is_usual_archive(data@),
    ensures
        crate::text::opt_text(r) == archive_error(data@),
{
    p12::PFX::parse(data).err().map(|e| e.to_string())
}

/// Whether the integrity of an archive holds under a password.
pub uninterp spec fn archive_is_intact(data: Seq<u8>, password: Seq<char>) -> bool;

/// `p12::PFX::verify_mac` of the archive of those bytes: a function of the bytes and the
/// password. A check of integrity by another digest than SHA-1 would stop it.
#[verifier::external_body]
fn verify_archive(data: &[u8], password: &str) -> (r: bool)
    requires
        crate::server::der::is_safe_archive(data@),
        crate::server::der::is_usual_archive(data@),
        crate::server::der::has_usual_check(data@),
    ensures
        r == archive_is_intact(data@, password@),
{
    p12::PFX::parse(data).is_ok_and(|p| p.verify_mac(password))
}

/// The bytes of one character of a password: its UTF-16, each unit with the high byte first.
pub open spec fn utf16(c: char) -> Seq<u8> {
    let n = c as int;
    if n < 0x10000 {
        seq![(n / 256) as u8, (n % 256) as u8]
    } else {
        let high = 0xd800 + (n - 0x10000) / 0x400;
        let low = 0xdc00 + (n - 0x10000) % 0x400;
        seq![(high / 256) as u8, (high % 256) as u8, (low / 256) as u8, (low % 256) as u8]
    }
}

/// The bytes of the characters of a password.
pub open spec fn all_utf16(s: Seq<char>) -> Seq<u8>
    decreases s.len(),
{
    if s.len() == 0 {
        Seq::empty()
    } else {
        all_utf16(s.drop_last()) + utf16(s.last())
    }
}

/// A password as an archive takes it: its characters, and two bytes nought.
pub open spec fn password_bytes(s: Seq<char>) -> Seq<u8> {
    all_utf16(s) + seq![0u8, 0u8]
}

fn push_utf16(out: &mut Vec<u8>, c: char)
    ensures
        final(out)@ == old(out)@ + utf16(c),
{
    let n: u32 = c as u32;
    if n < 0x10000 {
        out.push((n / 256) as u8);
        out.push((n % 256) as u8);
    } else {
        let high: u32 = 0xd800 + (n - 0x10000) / 0x400;
        let low: u32 = 0xdc00 + (n - 0x10000) % 0x400;
        out.push((high / 256) as u8);
        out.push((high % 256) as u8);
        out.push((low / 256) as u8);
        out.push((low % 256) as u8);
    }
    assert(out@ =~= old(out)@ + utf16(c));
}

/// A password as an archive takes it.
pub fn encode_password(password: &str) -> (r: Vec<u8>)
    ensures
        r@ == password_bytes(password@),
{
    let cs = crate::text::to_chars(password);
    let mut out: Vec<u8> = Vec::new();
    let mut k: usize = 0;
    while k < cs.len()
        invariant
            k <= cs@.len(),
            out@ == all_utf16(cs@.take(k as int)),
        decreases cs@.len() - k,
    {
        assert(cs@.take(k + 1).drop_last() =~= cs@.take(k as int));
        push_utf16(&mut out, cs[k]);
        k += 1;
    }
    assert(cs@.take(k as int) =~= cs@);
    out.push(0);
    out.push(0);
    assert(out@ =~= password_bytes(password@));
    out
}

/// What one content of an archive holds under a password in bytes, where it can be read.
pub uninterp spec fn content_data(content: Seq<u8>, password: Seq<u8>) -> Option<Seq<u8>>;

/// `p12::ContentInfo::data` of the content that `p12::ContentInfo::from_der` reads of those
/// bytes: a function of the bytes and the password.
#[verifier::external_body]
fn read_content(content: &[u8], password: &[u8]) -> (r: Option<Vec<u8>>)
    requires
        crate::server::der::is_safe_content(content@, 0),
        crate::server::der::is_usual_content(content@),
    ensures
        match r {
            Some(v) => content_data(content@, password@) == Some(v@),
            None => content_data(content@, password@) is None,
        },
{
    p12::ContentInfo::from_der(content).ok()?.data(password)
}

/// Whether one content of a list can be read, and the bags that it holds.
pub open spec fn is_safe_part(content: Seq<u8>, password: Seq<u8>) -> bool {
    &&& crate::server::der::is_safe_content(content, 0)
    &&& crate::server::der::is_usual_content(content)
    &&& match content_data(content, password) {
        Some(bags) => crate::server::der::are_safe_bags(bags),
        None => true,
    }
}

/// Whether the contents from a place on can be read, and the bags that they hold.
pub open spec fn are_safe_parts(b: Seq<u8>, i: int, password: Seq<u8>) -> bool
    decreases b.len() - i,
{
    proof {
        crate::server::der::lemma_head(b, i);
    }
    match crate::server::der::behind(b, i) {
        None => true,
        Some(end) => {
            &&& is_safe_part(b.subrange(i, end), password)
            &&& are_safe_parts(b, end, password)
        },
    }
}

/// Whether a list of contents can be read, and the bags that they hold.
pub open spec fn is_safe_list(held: Seq<u8>, password: Seq<u8>) -> bool {
    &&& crate::server::der::are_safe_contents(held)
    &&& crate::server::der::are_usual_contents(held)
    &&& match crate::server::der::body_of(held, crate::server::der::SEQUENCE) {
        None => true,
        Some((b, _)) => are_safe_parts(b, 0, password),
    }
}

/// Whether all that an archive holds under a password can be read: its content, the contents
/// that this one holds, and the bags in them.
pub open spec fn holds_readable(data: Seq<u8>, password: Seq<u8>) -> bool {
    &&& crate::server::der::is_safe_archive(data)
    &&& crate::server::der::is_usual_archive(data)
    &&& match crate::server::der::archive_content(data) {
        None => true,
        Some(content) => {
            &&& crate::server::der::is_safe_content(content, 0)
            &&& crate::server::der::is_usual_content(content)
            &&& match content_data(content, password) {
                None => true,
                Some(held) => is_safe_list(held, password),
            }
        },
    }
}

/// The archive that the bags of an archive are read from: one with the same contents in their
/// usual form, where they can be told.
pub open spec fn bags_archive(data: Seq<u8>, password: Seq<u8>) -> Seq<u8> {
    match crate::server::der::archive_content(data) {
        None => data,
        Some(content) => if crate::server::der::is_safe_content(content, 0)
            && crate::server::der::is_usual_content(content) {
            match content_data(content, password) {
                None => data,
                Some(held) => crate::server::der::plain_archive(
                    crate::server::der::usual_contents(held),
                ),
            }
        } else {
            data
        },
    }
}

/// The archive that the bags of an archive are read from.
pub fn find_bags_archive(data: &[u8], password: &str) -> (r: Vec<u8>)
    ensures
        r@ == bags_archive(data@, password_bytes(password@)),
{
    let key = encode_password(password);
    match crate::server::der::content_of(data) {
        None => vstd::slice::slice_to_vec(data),
        Some(content) => if crate::server::der::check_content(content.as_slice(), 0)
            && crate::server::der::check_usual_content(content.as_slice()) {
            match read_content(content.as_slice(), key.as_slice()) {
                None => vstd::slice::slice_to_vec(data),
                Some(held) => {
                    let usual = crate::server::der::make_usual_contents(held.as_slice());
                    crate::server::der::make_plain_archive(usual.as_slice())
                },
            }
        } else {
            vstd::slice::slice_to_vec(data)
        },
    }
}

fn check_part(content: &[u8], password: &[u8]) -> (r: bool)
    ensures
        r == is_safe_part(content@, password@),
{
    crate::server::der::check_content(content, 0) && crate::server::der::check_usual_content(content)
        && match read_content(content, password) {
        Some(bags) => crate::server::der::check_bags(bags.as_slice()),
        None => true,
    }
}

fn check_list(held: &[u8], password: &[u8]) -> (r: bool)
    ensures
        r == is_safe_list(held@, password@),
{
    if !crate::server::der::check_contents(held) || !crate::server::der::check_usual_contents(held) {
        return false;
    }
    let (b, _) = match crate::server::der::split_body(held, crate::server::der::SEQUENCE) {
        None => return true,
        Some(parts) => parts,
    };
    let mut i: usize = 0;
    loop
        invariant
            are_safe_parts(b@, 0, password@) == are_safe_parts(b@, i as int, password@),
            is_safe_list(held@, password@) == are_safe_parts(b@, 0, password@),
        decreases b@.len() - i,
    {
        let end: usize = match crate::server::der::find_behind(b, i) {
            None => return true,
            Some(end) => end,
        };
        if !check_part(vstd::slice::slice_subrange(b, i, end), password) {
            return false;
        }
        i = end;
    }
}

/// Whether all that an archive holds under a password can be read.
pub fn check_held(data: &[u8], password: &str) -> (r: bool)
    ensures
        r == holds_readable(data@, password_bytes(password@)),
{
    if !crate::server::der::check_archive_elements(data) || !crate::server::der::check_usual_archive(
        data,
    ) {
        return false;
    }
    let key = encode_password(password);
    let content = match crate::server::der::content_of(data) {
        None => return true,
        Some(c) => c,
    };
    if !crate::server::der::check_content(content.as_slice(), 0)
        || !crate::server::der::check_usual_content(content.as_slice()) {
        return false;
    }
    match read_content(content.as_slice(), key.as_slice()) {
        None => true,
        Some(held) => check_list(held.as_slice(), key.as_slice()),
    }
}

/// The private keys of an archive under a password, or why they cannot be read.
pub uninterp spec fn archive_keys(data: Seq<u8>, password: Seq<char>) -> Result<
    Seq<Seq<u8>>,
    Seq<char>,
>;

/// `p12::PFX::key_bags` of the archive of those bytes: a function of the bytes and the
/// password.
#[verifier::external_body]
fn read_archive_keys(data: &[u8], password: &str) -> (r: Result<Vec<Vec<u8>>, String>)
    requires
        holds_readable(data@, password_bytes(password@)),
    ensures
        match r {
            Ok(v) => archive_keys(data@, password@) == Ok::<Seq<Seq<u8>>, Seq<char>>(blobs(v@)),
            Err(e) => archive_keys(data@, password@) == Err::<Seq<Seq<u8>>, Seq<char>>(e@),
        },
{
    let archive = p12::PFX::parse(data).map_err(|e| e.to_string())?;
    archive.key_bags(password).map_err(|e| e.to_string())
}

/// The certificates of an archive under a password, or why they cannot be read.
pub uninterp spec fn archive_certificates(data: Seq<u8>, password: Seq<char>) -> Result<
    Seq<Seq<u8>>,
    Seq<char>,
>;

/// `p12::PFX::cert_x509_bags` of the archive of those bytes: a function of the bytes and the
/// password.
#[verifier::external_body]
fn read_archive_certificates(data: &[u8], password: &str) -> (r: Result<Vec<Vec<u8>>, String>)
    requires
        holds_readable(data@, password_bytes(password@)),
    ensures
        match r {
            Ok(v) => archive_certificates(data@, password@) == Ok::<Seq<Seq<u8>>, Seq<char>>(blobs(v@)),
            Err(e) => archive_certificates(data@, password@) == Err::<Seq<Seq<u8>>, Seq<char>>(e@),
        },
{
    let archive = p12::PFX::parse(data).map_err(|e| e.to_string())?;
    archive.cert_x509_bags(password).map_err(|e| e.to_string())
}

// ---------------------------------------------------------------------------
// Keys and certificates
// ---------------------------------------------------------------------------

/// The public key of a private key, where it can be told, or why the private key is none.
pub uninterp spec fn public_key_of(key: Seq<u8>) -> Result<Option<Seq<u8>>, Seq<char>>;

/// The public key that `rustls` tells of a private key in PKCS8, loaded by the provider
/// `aws_lc_rs`: a function of the key.
#[verifier::external_body]
fn read_public_key(key: &[u8]) -> (r: Result<Option<Vec<u8>>, String>)
    ensures
        match r {
            Ok(Some(k)) => public_key_of(key@) == Ok::<Option<Seq<u8>>, Seq<char>>(Some(k@)),
            Ok(None) => public_key_of(key@) == Ok::<Option<Seq<u8>>, Seq<char>>(None),
            Err(e) => public_key_of(key@) == Err::<Option<Seq<u8>>, Seq<char>>(e@),
        },
{
    let der = rustls::pki_types::PrivatePkcs8KeyDer::from(key.to_vec());
    let provider = rustls::crypto::aws_lc_rs::default_provider();
    let loaded = provider.key_provider.load_private_key(der.into()).map_err(|e| e.to_string())?;
    Ok(loaded.public_key().map(|k| k.as_ref().to_vec()))
}

/// Why some bytes do not begin with a certificate, if they do not.
pub uninterp spec fn certificate_error(cert: Seq<u8>) -> Option<Seq<char>>;

/// `x509_parser::parse_x509_certificate`: whether the bytes begin with a certificate, and why
/// not, is a function of them.
#[verifier::external_body]
fn parse_certificate(cert: &[u8]) -> (r: Option<String>)
    ensures
        crate::text::opt_text(r) == certificate_error(cert@),
{
    x509_parser::parse_x509_certificate(cert).err().map(|e| e.to_string())
}

/// The public key in a certificate.
pub uninterp spec fn certificate_key(cert: Seq<u8>) -> Option<Seq<u8>>;

/// The raw bytes of `TbsCertificate::public_key` of the certificate of those bytes, where
/// they are one: a function of the bytes.
#[verifier::external_body]
fn read_certificate_key(cert: &[u8]) -> (r: Option<Vec<u8>>)
    ensures
        match r {
            Some(k) => certificate_key(cert@) == Some(k@),
            None => certificate_key(cert@) is None,
        },
{
    let (_, parsed) = x509_parser::parse_x509_certificate(cert).ok()?;
    Some(parsed.public_key().raw.to_vec())
}

/// Whether the issuer of one certificate is the subject of another.
pub uninterp spec fn is_issued_to(child: Seq<u8>, candidate: Seq<u8>) -> bool;

/// Whether `TbsCertificate::issuer` of one certificate equals `TbsCertificate::subject` of
/// another, where both are certificates: a function of their bytes.
#[verifier::external_body]
fn read_issued_to(child: &[u8], candidate: &[u8]) -> (r: bool)
    ensures
        r == is_issued_to(child@, candidate@),
{
    match (x509_parser::parse_x509_certificate(child), x509_parser::parse_x509_certificate(candidate)) {
        (Ok((_, c)), Ok((_, i))) => c.issuer() == i.subject(),
        _ => false,
    }
}

/// Whether a certificate says that it is of an authority, where it says anything of that, or
/// why that cannot be read.
pub uninterp spec fn certificate_authority(cert: Seq<u8>) -> Result<Option<bool>, Seq<char>>;

/// `TbsCertificate::basic_constraints` of the certificate of those bytes: a function of the
/// bytes.
#[verifier::external_body]
fn read_authority(cert: &[u8]) -> (r: Result<Option<bool>, String>)
    ensures
        match r {
            Ok(b) => certificate_authority(cert@) == Ok::<Option<bool>, Seq<char>>(b),
            Err(e) => certificate_authority(cert@) == Err::<Option<bool>, Seq<char>>(e@),
        },
{
    let (_, parsed) = x509_parser::parse_x509_certificate(cert).map_err(|e| e.to_string())?;
    let constraints = parsed.basic_constraints().map_err(|e| e.to_string())?;
    Ok(constraints.map(|extension| extension.value.ca))
}

/// Whether the key of a certificate may sign certificates, where the certificate says
/// anything of that, or why that cannot be read.
pub uninterp spec fn certificate_may_sign(cert: Seq<u8>) -> Result<Option<bool>, Seq<char>>;

/// `TbsCertificate::key_usage` of the certificate of those bytes: a function of the bytes.
#[verifier::external_body]
fn read_may_sign(cert: &[u8]) -> (r: Result<Option<bool>, String>)
    ensures
        match r {
            Ok(b) => certificate_may_sign(cert@) == Ok::<Option<bool>, Seq<char>>(b),
            Err(e) => certificate_may_sign(cert@) == Err::<Option<bool>, Seq<char>>(e@),
        },
{
    let (_, parsed) = x509_parser::parse_x509_certificate(cert).map_err(|e| e.to_string())?;
    let usage = parsed.key_usage().map_err(|e| e.to_string())?;
    Ok(usage.map(|extension| extension.value.key_cert_sign()))
}

/// Whether the signature of one certificate is by the key of another.
pub uninterp spec fn is_signed_by(child: Seq<u8>, candidate: Seq<u8>) -> bool;

/// Whether `X509Certificate::verify_signature` of one certificate accepts the key of another,
/// where both are certificates: a function of their bytes.
#[verifier::external_body]
fn read_signed_by(child: &[u8], candidate: &[u8]) -> (r: bool)
    ensures
        r == is_signed_by(child@, candidate@),
{
    match (x509_parser::parse_x509_certificate(child), x509_parser::parse_x509_certificate(candidate)) {
        (Ok((_, c)), Ok((_, i))) => c.verify_signature(Some(i.public_key())).is_ok(),
        _ => false,
    }
}

/// When a certificate expires, in seconds since 1970, or why some bytes do not begin with one.
pub uninterp spec fn certificate_end(cert: Seq<u8>) -> Result<i64, Seq<char>>;

/// The end of `TbsCertificate::validity` of the certificate of those bytes: a function of the
/// bytes.
#[verifier::external_body]
fn read_certificate_end(cert: &[u8]) -> (r: Result<i64, String>)
    ensures
        match r {
            Ok(t) => certificate_end(cert@) == Ok::<i64, Seq<char>>(t),
            Err(e) => certificate_end(cert@) == Err::<i64, Seq<char>>(e@),
        },
{
    let (_, parsed) = x509_parser::parse_x509_certificate(cert).map_err(|e| e.to_string())?;
    Ok(parsed.validity().not_after.timestamp())
}

// ---------------------------------------------------------------------------
// Chains
// ---------------------------------------------------------------------------

/// The error of a certificate that is none.
pub open spec fn bad_certificate(e: Seq<char>) -> ErrorView {
    ErrorView::Tls("invalid PKCS12 certificate: "@ + e)
}

/// Whether a certificate can have issued another: the names match, it is of an authority, its
/// key may sign certificates, and it has signed the other.
pub open spec fn issuer_answer(
    issued_to: bool,
    authority: Result<Option<bool>, Seq<char>>,
    may_sign: Result<Option<bool>, Seq<char>>,
    signed: bool,
) -> Result<bool, ErrorView> {
    if !issued_to {
        Ok(false)
    } else {
        match authority {
            Err(e) => Err(ErrorView::Tls("invalid issuer basic constraints: "@ + e)),
            Ok(ca) => if ca != Some(true) {
                Ok(false)
            } else {
                match may_sign {
                    Err(e) => Err(ErrorView::Tls("invalid issuer key usage: "@ + e)),
                    Ok(sign) => Ok(sign != Some(false) && signed),
                }
            },
        }
    }
}

/// Whether one certificate can have issued another.
pub open spec fn valid_issuer(child: Seq<u8>, candidate: Seq<u8>) -> Result<bool, ErrorView> {
    issuer_answer(
        is_issued_to(child, candidate),
        certificate_authority(candidate),
        certificate_may_sign(candidate),
        is_signed_by(child, candidate),
    )
}

/// Whether a certificate holds a public key.
pub open spec fn leaf_verdict(cert: Seq<u8>, key: Seq<u8>) -> Result<bool, ErrorView> {
    match certificate_error(cert) {
        Some(e) => Err(bad_certificate(e)),
        None => Ok(certificate_key(cert) == Some(key)),
    }
}

/// Whether a certificate can have issued another, where it is a certificate.
pub open spec fn issuer_verdict(cert: Seq<u8>, child: Seq<u8>) -> Result<bool, ErrorView> {
    match certificate_error(cert) {
        Some(e) => Err(bad_certificate(e)),
        None => valid_issuer(child, cert),
    }
}

/// What is said of each certificate as the one of a key.
pub open spec fn leaf_verdicts(certs: Seq<Seq<u8>>, key: Seq<u8>) -> Seq<Result<bool, ErrorView>> {
    Seq::new(certs.len(), |i: int| leaf_verdict(certs[i], key))
}

/// What is said of each certificate as the issuer of another.
pub open spec fn issuer_verdicts(certs: Seq<Seq<u8>>, child: Seq<u8>) -> Seq<
    Result<bool, ErrorView>,
> {
    Seq::new(certs.len(), |i: int| issuer_verdict(certs[i], child))
}

/// Which of the places from `i` on holds the only yes, with `found` among those before; `twice`
/// is the complaint where there are two.
pub open spec fn picked(
    verdicts: Seq<Result<bool, ErrorView>>,
    i: int,
    found: Option<int>,
    twice: Seq<char>,
) -> Result<Option<int>, ErrorView>
    decreases verdicts.len() - i,
{
    if i < 0 || i >= verdicts.len() {
        Ok(found)
    } else {
        match verdicts[i] {
            Err(e) => Err(e),
            Ok(true) => if found is Some {
                Err(ErrorView::Tls(twice))
            } else {
                picked(verdicts, i + 1, Some(i), twice)
            },
            Ok(false) => picked(verdicts, i + 1, found, twice),
        }
    }
}

/// The place of the certificate of a key.
pub open spec fn leaf_place(certs: Seq<Seq<u8>>, key: Seq<u8>) -> Result<Option<int>, ErrorView> {
    picked(
        leaf_verdicts(certs, key),
        0,
        None,
        "multiple PKCS12 certificates match the private key"@,
    )
}

/// The place of the issuer of a certificate.
pub open spec fn issuer_place(certs: Seq<Seq<u8>>, child: Seq<u8>) -> Result<Option<int>, ErrorView> {
    picked(
        issuer_verdicts(certs, child),
        0,
        None,
        "multiple PKCS12 certificates can issue the same child certificate"@,
    )
}

/// A chain with all the other certificates behind it, each the issuer of the one before.
pub open spec fn chain_from(chain: Seq<Seq<u8>>, rest: Seq<Seq<u8>>) -> Result<Seq<Seq<u8>>, ErrorView>
    decreases rest.len(),
{
    if rest.len() == 0 {
        Ok(chain)
    } else {
        match certificate_error(chain.last()) {
            Some(e) => Err(bad_certificate(e)),
            None => match issuer_place(rest, chain.last()) {
                Err(e) => Err(e),
                Ok(None) => Err(
                    ErrorView::Tls("PKCS12 certificate chain is incomplete or invalid"@),
                ),
                Ok(Some(i)) => if 0 <= i < rest.len() {
                    chain_from(chain.push(rest[i]), rest.remove(i))
                } else {
                    Ok(chain)
                },
            },
        }
    }
}

/// The public key that was read of a private key.
pub open spec fn key_answer(read: Result<Option<Seq<u8>>, Seq<char>>) -> Result<
    Seq<u8>,
    ErrorView,
> {
    match read {
        Err(e) => Err(ErrorView::Tls("invalid PKCS12 private key: "@ + e)),
        Ok(None) => Err(ErrorView::Tls("could not determine PKCS12 private key public key"@)),
        Ok(Some(public)) => Ok(public),
    }
}

/// The chain of the certificates for a private key: its own first, then each issuer.
pub open spec fn ordered_chain(certs: Seq<Seq<u8>>, key: Seq<u8>) -> Result<Seq<Seq<u8>>, ErrorView> {
    match key_answer(public_key_of(key)) {
        Err(e) => Err(e),
        Ok(public) => match leaf_place(certs, public) {
            Err(e) => Err(e),
            Ok(None) => Err(ErrorView::Tls("no PKCS12 certificate matches the private key"@)),
            Ok(Some(i)) => chain_from(seq![certs[i]], certs.remove(i)),
        },
    }
}

fn bad_certificate_error(e: &str) -> (r: HathError)
    ensures
        r@ == bad_certificate(e@),
{
    HathError::Tls(crate::text::concat("invalid PKCS12 certificate: ", e))
}

/// What was read, with the text of an error.
pub open spec fn read_view<T>(r: Result<T, String>) -> Result<T, Seq<char>> {
    match r {
        Ok(t) => Ok(t),
        Err(e) => Err(e@),
    }
}

/// Whether a certificate can have issued another, from what was read of the two.
pub fn judge_issuer(
    issued_to: bool,
    authority: Result<Option<bool>, String>,
    may_sign: Result<Option<bool>, String>,
    signed: bool,
) -> (r: Result<bool, HathError>)
    ensures
        match r {
            Ok(b) => issuer_answer(issued_to, read_view(authority), read_view(may_sign), signed)
                == Ok::<bool, ErrorView>(b),
            Err(e) => issuer_answer(issued_to, read_view(authority), read_view(may_sign), signed)
                == Err::<bool, ErrorView>(e@),
        },
{
    if !issued_to {
        return Ok(false);
    }
    match authority {
        Err(e) => return Err(
            HathError::Tls(crate::text::concat("invalid issuer basic constraints: ", e.as_str())),
        ),
        Ok(Some(true)) => {},
        Ok(_) => return Ok(false),
    }
    match may_sign {
        Err(e) => Err(HathError::Tls(crate::text::concat("invalid issuer key usage: ", e.as_str()))),
        Ok(Some(false)) => Ok(false),
        Ok(_) => Ok(signed),
    }
}

/// Whether one certificate can have issued another.
pub fn is_valid_issuer(child: &Vec<u8>, candidate: &Vec<u8>) -> (r: Result<bool, HathError>)
    ensures
        match r {
            Ok(b) => valid_issuer(child@, candidate@) == Ok::<bool, ErrorView>(b),
            Err(e) => valid_issuer(child@, candidate@) == Err::<bool, ErrorView>(e@),
        },
{
    let issued_to = read_issued_to(child.as_slice(), candidate.as_slice());
    let authority = read_authority(candidate.as_slice());
    let may_sign = read_may_sign(candidate.as_slice());
    let signed = read_signed_by(child.as_slice(), candidate.as_slice());
    judge_issuer(issued_to, authority, may_sign, signed)
}

/// A place as a mathematical number.
pub open spec fn place_of(p: Option<usize>) -> Option<int> {
    match p {
        Some(i) => Some(i as int),
        None => None,
    }
}

/// Verdicts with their errors as views.
pub open spec fn verdict_views(v: Seq<Result<bool, HathError>>) -> Seq<Result<bool, ErrorView>> {
    Seq::new(
        v.len(),
        |i: int|
            match v[i] {
                Ok(b) => Ok(b),
                Err(e) => Err(e@),
            },
    )
}

/// The place of the only yes among some verdicts; `twice` is the complaint where there are two.
pub fn pick(verdicts: Vec<Result<bool, HathError>>, twice: &str) -> (r: Result<
    Option<usize>,
    HathError,
>)
    ensures
        match r {
            Ok(p) => picked(verdict_views(verdicts@), 0, None, twice@) == Ok::<
                Option<int>,
                ErrorView,
            >(place_of(p)) && (p matches Some(i) ==> i < verdicts@.len()),
            Err(e) => picked(verdict_views(verdicts@), 0, None, twice@) == Err::<
                Option<int>,
                ErrorView,
            >(e@),
        },
{
    let ghost all = verdict_views(verdicts@);
    let mut left = verdicts;
    let mut found: Option<usize> = None;
    let mut i: usize = 0;
    let n: usize = left.len();
    while left.len() > 0
        invariant
            n == verdicts@.len(),
            all == verdict_views(verdicts@),
            i + left@.len() == n,
            left@ == verdicts@.skip(i as int),
            found matches Some(k) ==> k < n,
            picked(all, 0, None, twice@) == picked(all, i as int, place_of(found), twice@),
        decreases left@.len(),
    {
        let ghost before = left@;
        let verdict = left.remove(0);
        assert(verdict == verdicts@[i as int]);
        assert(left@ =~= verdicts@.skip(i + 1));
        match verdict {
            Err(e) => return Err(e),
            Ok(true) => {
                if found.is_some() {
                    return Err(HathError::Tls(String::from_str(twice)));
                }
                found = Some(i);
            },
            Ok(false) => {},
        }
        i += 1;
    }
    Ok(found)
}

fn judge_leaves(certs: &Vec<Vec<u8>>, key: &Vec<u8>) -> (r: Vec<Result<bool, HathError>>)
    ensures
        verdict_views(r@) == leaf_verdicts(blobs(certs@), key@),
{
    let mut out: Vec<Result<bool, HathError>> = Vec::new();
    let mut i: usize = 0;
    while i < certs.len()
        invariant
            i <= certs@.len(),
            out@.len() == i,
            forall|j: int| 0 <= j < i ==> #[trigger] verdict_views(out@)[j] == leaf_verdict(
                certs@[j]@,
                key@,
            ),
        decreases certs.len() - i,
    {
        let verdict = match parse_certificate(certs[i].as_slice()) {
            Some(e) => Err(bad_certificate_error(e.as_str())),
            None => match read_certificate_key(certs[i].as_slice()) {
                Some(k) => Ok(crate::utils::bytes_equal(k.as_slice(), key.as_slice())),
                None => Ok(false),
            },
        };
        let ghost before = out@;
        out.push(verdict);
        assert forall|j: int| 0 <= j < i + 1 implies #[trigger] verdict_views(out@)[j]
            == leaf_verdict(certs@[j]@, key@) by {
            if j < i {
                assert(verdict_views(before)[j] == leaf_verdict(certs@[j]@, key@));
            }
        }
        i += 1;
    }
    assert(verdict_views(out@) =~= leaf_verdicts(blobs(certs@), key@));
    out
}

fn judge_issuers(certs: &Vec<Vec<u8>>, child: &Vec<u8>) -> (r: Vec<Result<bool, HathError>>)
    ensures
        verdict_views(r@) == issuer_verdicts(blobs(certs@), child@),
{
    let mut out: Vec<Result<bool, HathError>> = Vec::new();
    let mut i: usize = 0;
    while i < certs.len()
        invariant
            i <= certs@.len(),
            out@.len() == i,
            forall|j: int| 0 <= j < i ==> #[trigger] verdict_views(out@)[j] == issuer_verdict(
                certs@[j]@,
                child@,
            ),
        decreases certs.len() - i,
    {
        let verdict = match parse_certificate(certs[i].as_slice()) {
            Some(e) => Err(bad_certificate_error(e.as_str())),
            None => is_valid_issuer(child, &certs[i]),
        };
        let ghost before = out@;
        out.push(verdict);
        assert forall|j: int| 0 <= j < i + 1 implies #[trigger] verdict_views(out@)[j]
            == issuer_verdict(certs@[j]@, child@) by {
            if j < i {
                assert(verdict_views(before)[j] == issuer_verdict(certs@[j]@, child@));
            }
        }
        i += 1;
    }
    assert(verdict_views(out@) =~= issuer_verdicts(blobs(certs@), child@));
    out
}

/// What was read of a private key, with the text of an error.
pub open spec fn key_view(r: Result<Option<Vec<u8>>, String>) -> Result<Option<Seq<u8>>, Seq<char>> {
    match r {
        Ok(Some(k)) => Ok(Some(k@)),
        Ok(None) => Ok(None),
        Err(e) => Err(e@),
    }
}

/// The public key that was read of a private key.
pub fn check_key(read: Result<Option<Vec<u8>>, String>) -> (r: Result<Vec<u8>, HathError>)
    ensures
        match r {
            Ok(k) => key_answer(key_view(read)) == Ok::<Seq<u8>, ErrorView>(k@),
            Err(e) => key_answer(key_view(read)) == Err::<Seq<u8>, ErrorView>(e@),
        },
{
    match read {
        Err(e) => Err(
            HathError::Tls(crate::text::concat("invalid PKCS12 private key: ", e.as_str())),
        ),
        Ok(None) => Err(
            HathError::Tls(
                String::from_str("could not determine PKCS12 private key public key"),
            ),
        ),
        Ok(Some(k)) => Ok(k),
    }
}

/// Puts certificates in order: the one of the private key first, then each issuer.
pub fn order_certificate_chain(certificates: Vec<Vec<u8>>, private_key: &Vec<u8>) -> (r: Result<
    Vec<Vec<u8>>,
    HathError,
>)
    ensures
        match r {
            Ok(c) => ordered_chain(blobs(certificates@), private_key@) == Ok::<
                Seq<Seq<u8>>,
                ErrorView,
            >(blobs(c@)) && c@.len() > 0,
            Err(e) => ordered_chain(blobs(certificates@), private_key@) == Err::<
                Seq<Seq<u8>>,
                ErrorView,
            >(e@),
        },
{
    let ghost goal = ordered_chain(blobs(certificates@), private_key@);
    let key = match check_key(read_public_key(private_key.as_slice())) {
        Err(e) => return Err(e),
        Ok(k) => k,
    };
    let mut rest = certificates;
    let leaf = match pick(
        judge_leaves(&rest, &key),
        "multiple PKCS12 certificates match the private key",
    ) {
        Err(e) => return Err(e),
        Ok(None) => return Err(
            HathError::Tls(String::from_str("no PKCS12 certificate matches the private key")),
        ),
        Ok(Some(i)) => i,
    };
    let ghost before = rest@;
    let first = rest.remove(leaf);
    let mut chain: Vec<Vec<u8>> = Vec::new();
    chain.push(first);
    assert(blobs(chain@) =~= seq![blobs(before)[leaf as int]]);
    assert(blobs(rest@) =~= blobs(before).remove(leaf as int));
    while rest.len() > 0
        invariant
            chain@.len() > 0,
            goal == chain_from(blobs(chain@), blobs(rest@)),
            goal == ordered_chain(blobs(certificates@), private_key@),
        decreases rest@.len(),
    {
        let last: usize = chain.len() - 1;
        assert(blobs(chain@).last() == chain@[last as int]@);
        if let Some(e) = parse_certificate(chain[last].as_slice()) {
            return Err(bad_certificate_error(e.as_str()));
        }
        let found = match pick(
            judge_issuers(&rest, &chain[last]),
            "multiple PKCS12 certificates can issue the same child certificate",
        ) {
            Err(e) => return Err(e),
            Ok(None) => return Err(
                HathError::Tls(
                    String::from_str("PKCS12 certificate chain is incomplete or invalid"),
                ),
            ),
            Ok(Some(i)) => i,
        };
        let ghost old_chain = chain@;
        let ghost old_rest = rest@;
        let issuer = rest.remove(found);
        chain.push(issuer);
        assert(blobs(chain@) =~= blobs(old_chain).push(blobs(old_rest)[found as int]));
        assert(blobs(rest@) =~= blobs(old_rest).remove(found as int));
    }
    Ok(chain)
}

/// A place that was picked is that of a yes.
proof fn lemma_picked(
    verdicts: Seq<Result<bool, ErrorView>>,
    i: int,
    found: Option<int>,
    twice: Seq<char>,
)
    requires
        0 <= i,
        found matches Some(k) ==> 0 <= k < verdicts.len() && verdicts[k] == Ok::<bool, ErrorView>(true),
    ensures
        picked(verdicts, i, found, twice) matches Ok(Some(k)) ==> 0 <= k < verdicts.len()
            && verdicts[k] == Ok::<bool, ErrorView>(true),
    decreases verdicts.len() - i,
{
    if i < verdicts.len() {
        match verdicts[i] {
            Ok(true) => lemma_picked(verdicts, i + 1, Some(i), twice),
            _ => lemma_picked(verdicts, i + 1, found, twice),
        }
    }
}

/// Whether each certificate but the last was issued by the next.
pub open spec fn is_linked(chain: Seq<Seq<u8>>) -> bool {
    forall|i: int|
        0 <= i < chain.len() - 1 ==> #[trigger] valid_issuer(chain[i], chain[i + 1]) == Ok::<
            bool,
            ErrorView,
        >(true)
}

proof fn lemma_chain_from(chain: Seq<Seq<u8>>, rest: Seq<Seq<u8>>)
    requires
        chain.len() > 0,
        is_linked(chain),
    ensures
        chain_from(chain, rest) matches Ok(c) ==> c.len() == chain.len() + rest.len() && c[0] == chain[0]
            && is_linked(c) && c.to_multiset() == chain.to_multiset().add(rest.to_multiset()),
    decreases rest.len(),
{
    broadcast use vstd::seq_lib::group_to_multiset_ensures;

    if rest.len() == 0 {
        assert(rest =~= seq![]);
        assert(chain.to_multiset().add(rest.to_multiset()) =~= chain.to_multiset());
    } else {
        lemma_picked(
            issuer_verdicts(rest, chain.last()),
            0,
            None,
            "multiple PKCS12 certificates can issue the same child certificate"@,
        );
        match issuer_place(rest, chain.last()) {
            Ok(Some(i)) => {
                let next = chain.push(rest[i]);
                assert forall|k: int| 0 <= k < next.len() - 1 implies #[trigger] valid_issuer(
                    next[k],
                    next[k + 1],
                ) == Ok::<bool, ErrorView>(true) by {
                    if k < chain.len() - 1 {
                        assert(valid_issuer(chain[k], chain[k + 1]) == Ok::<bool, ErrorView>(true));
                    }
                }
                lemma_chain_from(next, rest.remove(i));
                assert(rest.remove(i).to_multiset() =~= rest.to_multiset().remove(rest[i]));
                assert(next.to_multiset() =~= chain.to_multiset().insert(rest[i]));
                assert(next.to_multiset().add(rest.remove(i).to_multiset())
                    =~= chain.to_multiset().add(rest.to_multiset()));
            },
            _ => {},
        }
    }
}

/// A chain that is put in order begins with the certificate of the private key; each
/// certificate was issued by the next; and it holds every certificate that was given, and no
/// other.
pub proof fn ordered_chain_is_linked_and_complete(certs: Seq<Seq<u8>>, key: Seq<u8>)
    ensures
        ordered_chain(certs, key) matches Ok(c) ==> {
            &&& c.len() == certs.len()
            &&& c.len() > 0
            &&& is_linked(c)
            &&& c.to_multiset() == certs.to_multiset()
            &&& public_key_of(key) matches Ok(Some(public))
            &&& certificate_key(c[0]) == Some(public)
        },
{
    broadcast use vstd::seq_lib::group_to_multiset_ensures;

    match public_key_of(key) {
        Ok(Some(public)) => {
            lemma_picked(
                leaf_verdicts(certs, public),
                0,
                None,
                "multiple PKCS12 certificates match the private key"@,
            );
            match leaf_place(certs, public) {
                Ok(Some(i)) => {
                    let first = seq![certs[i]];
                    lemma_chain_from(first, certs.remove(i));
                    assert(certs.remove(i).to_multiset() =~= certs.to_multiset().remove(certs[i]));
                    assert(first =~= Seq::<Seq<u8>>::empty().push(certs[i]));
                    assert(first.to_multiset().add(certs.remove(i).to_multiset())
                        =~= certs.to_multiset());
                },
                _ => {},
            }
        },
        _ => {},
    }
}

// ---------------------------------------------------------------------------
// The server's certificate
// ---------------------------------------------------------------------------

#[derive(Debug)]
pub struct ParsedP12Certificate {
    pub cert_chain: Vec<Vec<u8>>,
    pub private_key: Vec<u8>,
}

/// The private key and the certificates of an archive, from what was read of it: why it is
/// none, whether it is intact, its keys and its certificates.
pub open spec fn archive_answer(
    error: Option<Seq<char>>,
    intact: bool,
    keys: Result<Seq<Seq<u8>>, Seq<char>>,
    certs: Result<Seq<Seq<u8>>, Seq<char>>,
) -> Result<(Seq<u8>, Seq<Seq<u8>>), ErrorView> {
    match error {
        Some(e) => Err(ErrorView::Tls("invalid PKCS12 archive: "@ + e)),
        None => if !intact {
            Err(ErrorView::Tls("PKCS12 archive integrity check failed"@))
        } else {
            match keys {
                Err(e) => Err(ErrorView::Tls("failed to decrypt PKCS12 private key: "@ + e)),
                Ok(keys) => match certs {
                    Err(e) => Err(ErrorView::Tls("failed to decrypt PKCS12 certificates: "@ + e)),
                    Ok(certs) => if keys.len() != 1 {
                        Err(
                            ErrorView::Tls("PKCS12 archive must contain exactly one private key"@),
                        )
                    } else {
                        Ok((keys[0], certs))
                    },
                },
            }
        },
    }
}

/// What is said of an archive with elements that are not read.
pub const UNREADABLE: &'static str = "unreadable element";

/// What is read of an archive: its private key and its certificates. It is read in its usual
/// form; one that cannot be read even so is no archive.
pub open spec fn read_archive(data: Seq<u8>, password: Seq<char>) -> Result<
    (Seq<u8>, Seq<Seq<u8>>),
    ErrorView,
> {
    let usual = crate::server::der::usual_archive(data);
    let checked = crate::server::der::usual_check(usual);
    let bags = bags_archive(usual, password_bytes(password));
    let held = holds_readable(bags, password_bytes(password));
    archive_answer(
        if crate::server::der::is_safe_archive(usual) {
            archive_error(usual)
        } else {
            Some(UNREADABLE@)
        },
        crate::server::der::is_safe_archive(checked) && archive_is_intact(checked, password),
        if held {
            archive_keys(bags, password)
        } else {
            Err(UNREADABLE@)
        },
        if held {
            archive_certificates(bags, password)
        } else {
            Err(UNREADABLE@)
        },
    )
}

/// The chain and the private key that an archive holds.
pub open spec fn parsed_archive(data: Seq<u8>, password: Seq<char>) -> Result<
    (Seq<Seq<u8>>, Seq<u8>),
    ErrorView,
> {
    match read_archive(data, password) {
        Err(e) => Err(e),
        Ok((key, certs)) => match ordered_chain(certs, key) {
            Ok(c) => Ok((c, key)),
            Err(e) => Err(e),
        },
    }
}

/// The only private key of an archive.
pub fn select_private_key(private_keys: Vec<Vec<u8>>) -> (r: Result<Vec<u8>, HathError>)
    ensures
        match r {
            Ok(k) => private_keys@.len() == 1 && k@ == private_keys@[0]@,
            Err(e) => private_keys@.len() != 1 && e@ == ErrorView::Tls(
                "PKCS12 archive must contain exactly one private key"@,
            ),
        },
{
    let mut keys = private_keys;
    if keys.len() != 1 {
        return Err(
            HathError::Tls(
                String::from_str("PKCS12 archive must contain exactly one private key"),
            ),
        );
    }
    let key = keys.remove(0);
    Ok(key)
}

/// Blobs that were read, with the text of an error.
pub open spec fn blobs_view(r: Result<Vec<Vec<u8>>, String>) -> Result<Seq<Seq<u8>>, Seq<char>> {
    match r {
        Ok(v) => Ok(blobs(v@)),
        Err(e) => Err(e@),
    }
}

/// The private key and the certificates of an archive, from what was read of it: why it is
/// none, whether it is intact, its keys and its certificates.
pub fn check_archive(
    error: Option<String>,
    intact: bool,
    keys: Result<Vec<Vec<u8>>, String>,
    certs: Result<Vec<Vec<u8>>, String>,
) -> (r: Result<(Vec<u8>, Vec<Vec<u8>>), HathError>)
    ensures
        match r {
            Ok((k, c)) => archive_answer(
                crate::text::opt_text(error),
                intact,
                blobs_view(keys),
                blobs_view(certs),
            ) == Ok::<(Seq<u8>, Seq<Seq<u8>>), ErrorView>((k@, blobs(c@))),
            Err(e) => archive_answer(
                crate::text::opt_text(error),
                intact,
                blobs_view(keys),
                blobs_view(certs),
            ) == Err::<(Seq<u8>, Seq<Seq<u8>>), ErrorView>(e@),
        },
{
    if let Some(e) = error {
        return Err(HathError::Tls(crate::text::concat("invalid PKCS12 archive: ", e.as_str())));
    }
    if !intact {
        return Err(HathError::Tls(String::from_str("PKCS12 archive integrity check failed")));
    }
    let keys = match keys {
        Ok(k) => k,
        Err(e) => return Err(
            HathError::Tls(crate::text::concat("failed to decrypt PKCS12 private key: ", e.as_str())),
        ),
    };
    let certs = match certs {
        Ok(c) => c,
        Err(e) => return Err(
            HathError::Tls(
                crate::text::concat("failed to decrypt PKCS12 certificates: ", e.as_str()),
            ),
        ),
    };
    match select_private_key(keys) {
        Ok(k) => Ok((k, certs)),
        Err(e) => Err(e),
    }
}

/// Reads an archive: the private key, and the chain of its certificates in order.
pub fn parse_p12_certificate(data: &[u8], password: &str) -> (r: Result<ParsedP12Certificate, HathError>)
    ensures
        match r {
            Ok(p) => parsed_archive(data@, password@) == Ok::<(Seq<Seq<u8>>, Seq<u8>), ErrorView>(
                (blobs(p.cert_chain@), p.private_key@),
            ) && p.cert_chain@.len() > 0,
            Err(e) => parsed_archive(data@, password@) == Err::<(Seq<Seq<u8>>, Seq<u8>), ErrorView>(e@),
        },
{
    let usual = crate::server::der::make_usual_archive(data);
    proof {
        assert(usual@.len() == usual.len());
        crate::server::der::usual_archives_are_usual(data@);
    }
    let error = if crate::server::der::check_archive_elements(usual.as_slice()) {
        parse_archive(usual.as_slice())
    } else {
        Some(String::from_str(UNREADABLE))
    };
    let intact = error.is_none() && {
        let checked = crate::server::der::make_usual_check(usual.as_slice());
        proof {
            assert(checked@.len() == checked.len());
            crate::server::der::usual_checks_are_usual(usual@);
        }
        crate::server::der::check_archive_elements(checked.as_slice()) && verify_archive(
            checked.as_slice(),
            password,
        )
    };
    let bags = if intact {
        find_bags_archive(usual.as_slice(), password)
    } else {
        Vec::new()
    };
    let held = intact && check_held(bags.as_slice(), password);
    let keys = if !intact {
        Ok(Vec::new())
    } else if held {
        read_archive_keys(bags.as_slice(), password)
    } else {
        Err(String::from_str(UNREADABLE))
    };
    let certs = if held && keys.is_ok() {
        read_archive_certificates(bags.as_slice(), password)
    } else {
        Ok(Vec::new())
    };
    let (private_key, certs) = match check_archive(error, intact, keys, certs) {
        Ok(parts) => parts,
        Err(e) => return Err(e),
    };
    match order_certificate_chain(certs, &private_key) {
        Ok(cert_chain) => Ok(ParsedP12Certificate { cert_chain, private_key }),
        Err(e) => Err(e),
    }
}

/// An archive with an element that is not read is refused, whatever the password.
pub proof fn unreadable_archives_are_refused(data: Seq<u8>, password: Seq<char>)
    requires
        !crate::server::der::is_safe_archive(crate::server::der::usual_archive(data)),
    ensures
        parsed_archive(data, password) == Err::<(Seq<Seq<u8>>, Seq<u8>), ErrorView>(
            ErrorView::Tls("invalid PKCS12 archive: "@ + UNREADABLE@),
        ),
{
}

/// Whether a certificate is past use at a time: it expires within the next day.
pub open spec fn is_past_use(expiry: i64, now: i64) -> bool {
    expiry < (if now + CERT_RENEWAL_WINDOW_SECS <= i64::MAX {
        now + CERT_RENEWAL_WINDOW_SECS
    } else {
        i64::MAX as int
    })
}

/// Whether a certificate expires within the next day. The clock is read.
pub fn is_cert_expired(cert_expiry_unix: i64) -> (r: bool)
    ensures
        exists|now: i64| 0 <= now && r == #[trigger] is_past_use(cert_expiry_unix, now),
{
    let now: i64 = crate::utils::timestamp_now();
    is_cert_expired_at(cert_expiry_unix, now)
}

/// Whether a certificate expires within a day of the time `now`.
pub fn is_cert_expired_at(cert_expiry_unix: i64, now: i64) -> (r: bool)
    ensures
        r == is_past_use(cert_expiry_unix, now),
{
    let end: i64 = if now <= i64::MAX - CERT_RENEWAL_WINDOW_SECS {
        now + CERT_RENEWAL_WINDOW_SECS
    } else {
        i64::MAX
    };
    cert_expiry_unix < end
}

/// The end of the first certificate of a chain, from what was read of it.
pub open spec fn end_answer(read: Result<i64, Seq<char>>) -> Result<i64, ErrorView> {
    match read {
        Ok(t) => Ok(t),
        Err(e) => Err(ErrorView::Tls("invalid leaf certificate: "@ + e)),
    }
}

/// The end of the first certificate of a chain, from what was read of it.
pub fn check_end(read: Result<i64, String>) -> (r: Result<i64, HathError>)
    ensures
        match r {
            Ok(t) => end_answer(read_view(read)) == Ok::<i64, ErrorView>(t),
            Err(e) => end_answer(read_view(read)) == Err::<i64, ErrorView>(e@),
        },
{
    match read {
        Ok(t) => Ok(t),
        Err(e) => Err(HathError::Tls(crate::text::concat("invalid leaf certificate: ", e.as_str()))),
    }
}

/// When a certificate expires.
pub fn certificate_expiry_unix(cert: &Vec<u8>) -> (r: Result<i64, HathError>)
    ensures
        match r {
            Ok(t) => end_answer(certificate_end(cert@)) == Ok::<i64, ErrorView>(t),
            Err(e) => end_answer(certificate_end(cert@)) == Err::<i64, ErrorView>(e@),
        },
{
    check_end(read_certificate_end(cert.as_slice()))
}

/// Where the archive is kept.
pub fn certificate_path(data_dir: &str) -> (r: String)
    ensures
        r@ == crate::utils::joined(data_dir@, "hathcert.p12"@),
{
    crate::utils::join_path(data_dir, "hathcert.p12")
}

/// Whether the archive is downloaded before it is read.
pub fn needs_download(force_download: bool, present: bool) -> (r: bool)
    ensures
        r == (force_download || !present),
{
    force_download || !present
}

/// Takes a certificate that ends at a time, or refuses it where it is past use.
pub fn accept_certificate(parsed: ParsedP12Certificate, expiry: i64, now: i64) -> (r: Result<
    (ParsedP12Certificate, i64),
    HathError,
>)
    ensures
        if is_past_use(expiry, now) {
            r matches Err(e) && e@ == ErrorView::CertExpired
        } else {
            r == Ok::<(ParsedP12Certificate, i64), HathError>((parsed, expiry))
        },
{
    if is_cert_expired_at(expiry, now) {
        return Err(HathError::CertExpired);
    }
    Ok((parsed, expiry))
}

/// What reading the archive of the server gives at a time: its chain, its key and its end. A
/// certificate that is past use is refused.
pub open spec fn loaded_certificate(data: Seq<u8>, password: Seq<char>, now: i64) -> Result<
    (Seq<Seq<u8>>, Seq<u8>, i64),
    ErrorView,
> {
    match parsed_archive(data, password) {
        Err(e) => Err(e),
        Ok((chain, key)) => match end_answer(certificate_end(chain[0])) {
            Err(e) => Err(e),
            Ok(expiry) => if is_past_use(expiry, now) {
                Err(ErrorView::CertExpired)
            } else {
                Ok((chain, key, expiry))
            },
        },
    }
}

/// What was loaded, as a view.
pub open spec fn loaded_view(r: Result<(ParsedP12Certificate, i64), HathError>) -> Result<
    (Seq<Seq<u8>>, Seq<u8>, i64),
    ErrorView,
> {
    match r {
        Ok((p, t)) => Ok((blobs(p.cert_chain@), p.private_key@, t)),
        Err(e) => Err(e@),
    }
}

/// Reads the archive of the server at the time `now`.
pub fn load_certificate_at(data: &[u8], password: &str, now: i64) -> (r: Result<
    (ParsedP12Certificate, i64),
    HathError,
>)
    ensures
        loaded_view(r) == loaded_certificate(data@, password@, now),
{
    let parsed = match parse_p12_certificate(data, password) {
        Ok(p) => p,
        Err(e) => return Err(e),
    };
    assert(blobs(parsed.cert_chain@)[0] == parsed.cert_chain@[0]@);
    let expiry: i64 = match certificate_expiry_unix(&parsed.cert_chain[0]) {
        Ok(t) => t,
        Err(e) => return Err(e),
    };
    accept_certificate(parsed, expiry, now)
}

/// Reads the archive of the server by the system's clock.
pub fn load_certificate(data: &[u8], password: &str) -> (r: Result<(ParsedP12Certificate, i64), HathError>)
    ensures
        exists|now: i64|
            0 <= now && loaded_view(r) == #[trigger] loaded_certificate(data@, password@, now),
{
    let now: i64 = crate::utils::timestamp_now();
    load_certificate_at(data, password, now)
}

} // verus!
