//! Digests, hexadecimal text, paths, and the key=value segments of request paths.

use vstd::prelude::*;

pub use crate::ip::normalize_ip;

verus! {

/// The hexadecimal digit of a number below sixteen.
pub open spec fn hex_char(n: u8) -> char {
    if n < 10 {
        (48 + n) as char
    } else {
        (87 + n) as char
    }
}

/// Bytes as lower-case hexadecimal text, two digits each.
pub open spec fn hex_text(data: Seq<u8>) -> Seq<char> {
    Seq::new(
        2 * data.len(),
        |i: int|
            if i % 2 == 0 {
                hex_char(data[i / 2] / 16)
            } else {
                hex_char(data[i / 2] % 16)
            },
    )
}

/// Different bytes have different hexadecimal texts.
pub proof fn hex_text_is_injective(a: Seq<u8>, b: Seq<u8>)
    requires
        hex_text(a) == hex_text(b),
    ensures
        a == b,
{
    assert(hex_text(a).len() == 2 * a.len());
    assert(hex_text(b).len() == 2 * b.len());
    assert forall|i: int| 0 <= i < a.len() implies a[i] == b[i] by {
        assert(hex_text(a)[2 * i] == hex_char(a[i] / 16));
        assert(hex_text(b)[2 * i] == hex_char(b[i] / 16));
        assert(hex_text(a)[2 * i + 1] == hex_char(a[i] % 16));
        assert(hex_text(b)[2 * i + 1] == hex_char(b[i] % 16));
    }
}

/// Hexadecimal text has two lower-case digits for each byte.
pub proof fn hex_text_shape(data: Seq<u8>)
    ensures
        hex_text(data).len() == 2 * data.len(),
        forall|i: int|
            0 <= i < hex_text(data).len() ==> crate::types::is_lower_hex(#[trigger] hex_text(data)[i]),
{
}

fn nibble_char(n: u8) -> (r: char)
    requires
        n < 16,
    ensures
        r == hex_char(n),
{
    if n < 10 {
        (48 + n) as char
    } else {
        (87 + n) as char
    }
}

/// Convert bytes to lowercase hex string.
pub fn hex_encode(data: &[u8]) -> (r: String)
    ensures
        r@ == hex_text(data@),
{
    let mut out = String::new();
    let mut i: usize = 0;
    while i < data.len()
        invariant
            i <= data.len(),
            out@ == hex_text(data@.take(i as int)),
        decreases data.len() - i,
    {
        let b = data[i];
        out.push(nibble_char(b / 16));
        out.push(nibble_char(b % 16));
        i += 1;
        assert(out@ =~= hex_text(data@.take(i as int)));
    }
    assert(data@.take(i as int) =~= data@);
    out
}

/// The SHA-1 digest of some bytes.
pub uninterp spec fn sha1_digest(data: Seq<u8>) -> Seq<u8>;

/// `sha1::Sha1::digest`: the digest is a function of the bytes and twenty bytes long.
#[verifier::external_body]
fn sha1(data: &[u8]) -> (r: Vec<u8>)
    ensures
        r@ == sha1_digest(data@),
        r@.len() == 20,
{
    <sha1::Sha1 as sha1::Digest>::digest(data).to_vec()
}

/// The SHA-1 digest of some bytes as hexadecimal text.
pub open spec fn sha1_text(data: Seq<u8>) -> Seq<char> {
    hex_text(sha1_digest(data))
}

/// Compute SHA-1 hex digest of a string.
pub fn sha1_string(input: &str) -> (r: String)
    ensures
        r@ == sha1_text(vstd::utf8::encode_utf8(input@)),
        crate::types::is_sha1_text(r@),
{
    sha1_bytes(input.as_bytes())
}

/// Compute SHA-1 hex digest of a byte slice.
pub fn sha1_bytes(data: &[u8]) -> (r: String)
    ensures
        r@ == sha1_text(data@),
        crate::types::is_sha1_text(r@),
{
    let d = sha1(data);
    let r = hex_encode(d.as_slice());
    proof {
        hex_text_shape(d@);
    }
    r
}

/// A digest that is fed piece by piece.
#[verifier::external_body]
pub struct Sha1Stream {
    inner: sha1::Sha1,
}

/// The bytes that a digest has been fed so far.
pub uninterp spec fn fed_bytes(h: Sha1Stream) -> Seq<u8>;

/// `sha1::Sha1::new`: nothing has been fed.
#[verifier::external_body]
fn start_digest() -> (r: Sha1Stream)
    ensures
        fed_bytes(r) == Seq::<u8>::empty(),
{
    Sha1Stream { inner: <sha1::Sha1 as sha1::Digest>::new() }
}

/// `sha1::Digest::update`: the bytes come behind those that were fed before.
#[verifier::external_body]
fn feed_digest(h: &mut Sha1Stream, data: &[u8])
    ensures
        fed_bytes(*final(h)) == fed_bytes(*old(h)) + data@,
{
    sha1::Digest::update(&mut h.inner, data);
}

/// `sha1::Digest::finalize` on a copy: the digest of all the bytes that were fed.
#[verifier::external_body]
fn read_digest(h: &Sha1Stream) -> (r: Vec<u8>)
    ensures
        r@ == sha1_digest(fed_bytes(*h)),
        r@.len() == 20,
{
    sha1::Digest::finalize(h.inner.clone()).to_vec()
}

impl View for Sha1Stream {
    type V = Seq<u8>;

    open spec fn view(&self) -> Seq<u8> {
        fed_bytes(*self)
    }
}

impl Sha1Stream {
    pub fn new() -> (r: Self)
        ensures
            r@ == Seq::<u8>::empty(),
    {
        start_digest()
    }

    pub fn update(&mut self, data: &[u8])
        ensures
            final(self)@ == old(self)@ + data@,
    {
        feed_digest(self, data);
    }

    /// The digest of all the bytes so far, as hexadecimal text.
    pub fn hex(&self) -> (r: String)
        ensures
            r@ == sha1_text(self@),
            crate::types::is_sha1_text(r@),
    {
        let d = read_digest(self);
        proof {
            hex_text_shape(d@);
        }
        hex_encode(d.as_slice())
    }
}

/// All key=value fields used across the additional segments of request paths:
/// those of file requests first, then those of the threaded proxy test.
#[derive(Debug)]
pub struct Additional {
    pub keystamp: Option<String>,
    pub fileindex: Option<String>,
    pub xres: Option<String>,
    pub hostname: Option<String>,
    pub protocol: Option<String>,
    pub port: Option<String>,
    pub testsize: Option<String>,
    pub testcount: Option<String>,
    pub testtime: Option<String>,
    pub testkey: Option<String>,
}

/// The key and the value that one piece of a segment holds: more than two bytes with
/// an equals sign in them.
pub open spec fn pair_of(piece: Seq<char>) -> Option<(Seq<char>, Seq<char>)> {
    if vstd::utf8::encode_utf8(piece).len() > 2 {
        match crate::text::split_once(piece, '=') {
            Some((k, v)) => Some((crate::text::trim(k), crate::text::trim(v))),
            None => None,
        }
    } else {
        None
    }
}

/// The value of the last piece with that key.
pub open spec fn value_in(pieces: Seq<Seq<char>>, key: Seq<char>) -> Option<Seq<char>>
    decreases pieces.len(),
{
    if pieces.len() == 0 {
        None
    } else {
        match pair_of(pieces.last()) {
            Some((k, v)) => if k == key {
                Some(v)
            } else {
                value_in(pieces.drop_last(), key)
            },
            None => value_in(pieces.drop_last(), key),
        }
    }
}

/// The value that a segment gives to a key: pieces are parted by semicolons, and the
/// last piece with that key counts.
pub open spec fn additional_value(s: Seq<char>, key: Seq<char>) -> Option<Seq<char>> {
    value_in(crate::text::split(crate::text::trim(s), ';'), key)
}

impl Additional {
    /// Whether the fields are those that the pieces give.
    pub open spec fn holds(&self, pieces: Seq<Seq<char>>) -> bool {
        &&& crate::text::opt_text(self.keystamp) == value_in(pieces, "keystamp"@)
        &&& crate::text::opt_text(self.fileindex) == value_in(pieces, "fileindex"@)
        &&& crate::text::opt_text(self.xres) == value_in(pieces, "xres"@)
        &&& crate::text::opt_text(self.hostname) == value_in(pieces, "hostname"@)
        &&& crate::text::opt_text(self.protocol) == value_in(pieces, "protocol"@)
        &&& crate::text::opt_text(self.port) == value_in(pieces, "port"@)
        &&& crate::text::opt_text(self.testsize) == value_in(pieces, "testsize"@)
        &&& crate::text::opt_text(self.testcount) == value_in(pieces, "testcount"@)
        &&& crate::text::opt_text(self.testtime) == value_in(pieces, "testtime"@)
        &&& crate::text::opt_text(self.testkey) == value_in(pieces, "testkey"@)
    }
}

fn keep(field: Option<String>, key: &str, name: &str, value: &String) -> (r: Option<String>)
    ensures
        crate::text::opt_text(r) == (if key@ == name@ {
            Some(value@)
        } else {
            crate::text::opt_text(field)
        }),
{
    if crate::text::str_eq(key, name) {
        Some(value.clone())
    } else {
        field
    }
}

/// Parse semicolon-separated key=value pairs into an `Additional`.
pub fn parse_additional(additional: &str) -> (out: Additional)
    ensures
        out.holds(crate::text::split(crate::text::trim(additional@), ';')),
{
    let mut out = Additional {
        keystamp: None,
        fileindex: None,
        xres: None,
        hostname: None,
        protocol: None,
        port: None,
        testsize: None,
        testcount: None,
        testtime: None,
        testkey: None,
    };
    let trimmed = crate::text::trimmed(additional);
    let pieces = crate::text::split_on(trimmed.as_str(), ';');
    let ghost all = crate::text::texts(pieces@);
    let mut i: usize = 0;
    while i < pieces.len()
        invariant
            i <= pieces.len(),
            all == crate::text::texts(pieces@),
            out.holds(all.take(i as int)),
        decreases pieces.len() - i,
    {
        let piece = pieces[i].as_str();
        assert(all.take(i + 1).drop_last() =~= all.take(i as int));
        assert(all.take(i + 1).last() == piece@);
        if piece.as_bytes().len() > 2 {
            match crate::text::split_at_char(piece, '=') {
                Some((k, v)) => {
                    let key = crate::text::trimmed(k.as_str());
                    let value = crate::text::trimmed(v.as_str());
                    out = Additional {
                        keystamp: keep(out.keystamp, key.as_str(), "keystamp", &value),
                        fileindex: keep(out.fileindex, key.as_str(), "fileindex", &value),
                        xres: keep(out.xres, key.as_str(), "xres", &value),
                        hostname: keep(out.hostname, key.as_str(), "hostname", &value),
                        protocol: keep(out.protocol, key.as_str(), "protocol", &value),
                        port: keep(out.port, key.as_str(), "port", &value),
                        testsize: keep(out.testsize, key.as_str(), "testsize", &value),
                        testcount: keep(out.testcount, key.as_str(), "testcount", &value),
                        testtime: keep(out.testtime, key.as_str(), "testtime", &value),
                        testkey: keep(out.testkey, key.as_str(), "testkey", &value),
                    };
                },
                None => {},
            }
        }
        i += 1;
    }
    assert(all.take(i as int) =~= all);
    out
}

/// A path with a component behind it: a component that begins with a slash stands alone,
/// and a slash comes between where the path is not empty and does not end in one.
pub open spec fn joined(path: Seq<char>, component: Seq<char>) -> Seq<char> {
    if component.len() > 0 && component[0] == '/' {
        component
    } else if path.len() > 0 && path.last() != '/' {
        path + seq!['/'] + component
    } else {
        path + component
    }
}

/// A path with a component behind it.
pub fn join_path(path: &str, component: &str) -> (r: String)
    ensures
        r@ == joined(path@, component@),
{
    let p = crate::text::to_chars(path);
    let c = crate::text::to_chars(component);
    if c.len() > 0 && c[0] == '/' {
        return String::from_str(component);
    }
    let mut out = String::from_str(path);
    if p.len() > 0 && p[p.len() - 1] != '/' {
        out.push('/');
        assert(out@ =~= path@ + seq!['/']);
    }
    out.append(component);
    out
}

/// Puts bytes behind others.
pub(crate) fn push_all(out: &mut Vec<u8>, data: &[u8])
    ensures
        final(out)@ == old(out)@ + data@,
{
    let ghost before = out@;
    let mut i: usize = 0;
    while i < data.len()
        invariant
            i <= data@.len(),
            out@ == before + data@.take(i as int),
        decreases data@.len() - i,
    {
        out.push(data[i]);
        i += 1;
        assert(out@ =~= before + data@.take(i as int));
    }
    assert(data@.take(i as int) =~= data@);
}

/// Whether two lists of bytes are the same.
pub(crate) fn bytes_equal(a: &[u8], b: &[u8]) -> (r: bool)
    ensures
        r == (a@ == b@),
{
    if a.len() != b.len() {
        return false;
    }
    let mut i: usize = 0;
    while i < a.len()
        invariant
            i <= a.len(),
            a@.len() == b@.len(),
            forall|j: int| 0 <= j < i ==> a@[j] == b@[j],
        decreases a.len() - i,
    {
        if a[i] != b[i] {
            assert(a@[i as int] != b@[i as int]);
            return false;
        }
        i += 1;
    }
    assert(a@ =~= b@);
    true
}

/// Current time in milliseconds since the Unix epoch, read with
/// `std::time::SystemTime::now`; nothing is promised of it.
#[verifier::external_body]
pub fn millis_now() -> (r: u64) {
    std::time::SystemTime::now()
        .duration_since(std::time::UNIX_EPOCH)
        .unwrap_or_default()
        .as_millis() as u64
}

/// Current time in seconds since the Unix epoch, read with `chrono::Utc::now`. It gives no
/// time before the epoch; more is not promised of it.
#[verifier::external_body]
pub(crate) fn timestamp_now() -> (r: i64)
    ensures
        0 <= r,
{
    chrono::Utc::now().timestamp()
}

} // verus!
