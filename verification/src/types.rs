//! The small types that the client is built from.

use vstd::prelude::*;

verus! {

/// The lower-case hexadecimal digits.
pub open spec fn is_lower_hex(c: char) -> bool {
    '0' <= c <= '9' || 'a' <= c <= 'f'
}

/// The hexadecimal digits of either case.
pub open spec fn is_hex(c: char) -> bool {
    '0' <= c <= '9' || 'a' <= c <= 'f' || 'A' <= c <= 'F'
}

/// Letters and digits of ASCII.
pub open spec fn is_alphanumeric(c: char) -> bool {
    '0' <= c <= '9' || 'a' <= c <= 'z' || 'A' <= c <= 'Z'
}

/// The text of a SHA-1 digest: forty lower-case hexadecimal digits.
pub open spec fn is_sha1_text(s: Seq<char>) -> bool {
    s.len() == 40 && forall|i: int| 0 <= i < s.len() ==> is_lower_hex(#[trigger] s[i])
}

/// The text of a client key: twenty letters or digits.
pub open spec fn is_key_text(s: Seq<char>) -> bool {
    s.len() == 20 && forall|i: int| 0 <= i < s.len() ==> is_alphanumeric(#[trigger] s[i])
}

pub fn char_is_hex(c: char) -> (r: bool)
    ensures
        r == is_hex(c),
{
    (c >= '0' && c <= '9') || (c >= 'a' && c <= 'f') || (c >= 'A' && c <= 'F')
}

pub fn char_is_lower_hex(c: char) -> (r: bool)
    ensures
        r == is_lower_hex(c),
{
    (c >= '0' && c <= '9') || (c >= 'a' && c <= 'f')
}

pub fn char_is_alphanumeric(c: char) -> (r: bool)
    ensures
        r == is_alphanumeric(c),
{
    (c >= '0' && c <= '9') || (c >= 'a' && c <= 'z') || (c >= 'A' && c <= 'Z')
}

/// SHA-1 hash as a 40-char lowercase hex string.
#[derive(Debug, PartialEq, Eq, Hash)]
pub struct Sha1Hash(String);

impl View for Sha1Hash {
    type V = Seq<char>;

    closed spec fn view(&self) -> Seq<char> {
        self.0@
    }
}

impl Sha1Hash {
    #[verifier::type_invariant]
    closed spec fn inv(&self) -> bool {
        is_sha1_text(self.0@)
    }

    /// Takes forty hexadecimal digits of either case; capitals become small letters.
    pub fn new(s: &str) -> (r: Option<Self>)
        ensures
            r is Some <==> s@.len() == 40 && forall|i: int| 0 <= i < 40 ==> is_hex(#[trigger] s@[i]),
            r matches Some(h) ==> h@ == crate::text::ascii_lower(s@),
    {
        let cs = crate::text::to_chars(s);
        if cs.len() != 40 {
            return None;
        }
        let mut i: usize = 0;
        while i < cs.len()
            invariant
                cs@ == s@,
                cs.len() == 40,
                i <= 40,
                forall|j: int| 0 <= j < i ==> is_hex(#[trigger] s@[j]),
            decreases cs.len() - i,
        {
            if !char_is_hex(cs[i]) {
                assert(!is_hex(s@[i as int]));
                return None;
            }
            i += 1;
        }
        let lower = crate::text::to_ascii_lower(s);
        assert forall|j: int| 0 <= j < lower@.len() implies is_lower_hex(#[trigger] lower@[j]) by {
            assert(is_hex(s@[j]));
        }
        Some(Sha1Hash(lower))
    }

    pub fn static_range(&self) -> (r: StaticRange)
        ensures
            r@ == self@.take(4),
    {
        proof {
            use_type_invariant(self);
        }
        let cs = crate::text::to_chars(self.0.as_str());
        let s = crate::text::substring(&cs, 0, 4);
        assert(s@ =~= self@.take(4));
        StaticRange(s)
    }

    /// The name of the first directory level.
    pub fn l1_dir(&self) -> (r: String)
        ensures
            r@ == self@.subrange(0, 2),
    {
        proof {
            use_type_invariant(self);
        }
        let cs = crate::text::to_chars(self.0.as_str());
        crate::text::substring(&cs, 0, 2)
    }

    /// The name of the second directory level.
    pub fn l2_dir(&self) -> (r: String)
        ensures
            r@ == self@.subrange(2, 4),
    {
        proof {
            use_type_invariant(self);
        }
        let cs = crate::text::to_chars(self.0.as_str());
        crate::text::substring(&cs, 2, 4)
    }

    pub fn as_str(&self) -> (r: &str)
        ensures
            r@ == self@,
            is_sha1_text(r@),
    {
        proof {
            use_type_invariant(self);
        }
        self.0.as_str()
    }
}

impl Clone for Sha1Hash {
    fn clone(&self) -> (r: Self)
        ensures
            r@ == self@,
    {
        proof {
            use_type_invariant(self);
        }
        Sha1Hash(self.0.clone())
    }
}

/// The first four digits of a hash: the unit in which files are assigned to clients.
#[derive(Debug, Clone, PartialEq, Eq, Hash)]
pub struct StaticRange(String);

impl View for StaticRange {
    type V = Seq<char>;

    closed spec fn view(&self) -> Seq<char> {
        self.0@
    }
}

impl StaticRange {
    pub fn as_str(&self) -> (r: &str)
        ensures
            r@ == self@,
    {
        self.0.as_str()
    }
}

#[derive(Debug, Clone, PartialEq, Eq, Hash)]
pub struct FileId(String);

impl View for FileId {
    type V = Seq<char>;

    closed spec fn view(&self) -> Seq<char> {
        self.0@
    }
}

impl FileId {
    pub fn new(s: &str) -> (r: Self)
        ensures
            r@ == s@,
    {
        FileId(String::from_str(s))
    }

    pub fn as_str(&self) -> (r: &str)
        ensures
            r@ == self@,
    {
        self.0.as_str()
    }
}

#[derive(Debug, Clone, Copy, PartialEq, Eq, Structural)]
pub struct ClientId(pub u32);

/// The secret that the client shares with its server.
#[derive(Debug, PartialEq, Eq)]
pub struct ClientKey(String);

impl View for ClientKey {
    type V = Seq<char>;

    closed spec fn view(&self) -> Seq<char> {
        self.0@
    }
}

impl ClientKey {
    #[verifier::type_invariant]
    closed spec fn inv(&self) -> bool {
        is_key_text(self.0@)
    }

    /// Takes twenty ASCII letters or digits.
    pub fn new(s: &str) -> (r: Option<Self>)
        ensures
            r is Some <==> is_key_text(s@),
            r matches Some(k) ==> k@ == s@,
    {
        let cs = crate::text::to_chars(s);
        if cs.len() != 20 {
            return None;
        }
        let mut i: usize = 0;
        while i < cs.len()
            invariant
                cs@ == s@,
                cs.len() == 20,
                i <= 20,
                forall|j: int| 0 <= j < i ==> is_alphanumeric(#[trigger] s@[j]),
            decreases cs.len() - i,
        {
            if !char_is_alphanumeric(cs[i]) {
                assert(!is_alphanumeric(s@[i as int]));
                return None;
            }
            i += 1;
        }
        Some(ClientKey(String::from_str(s)))
    }

    pub fn as_str(&self) -> (r: &str)
        ensures
            r@ == self@,
            is_key_text(r@),
    {
        proof {
            use_type_invariant(self);
        }
        self.0.as_str()
    }

    pub fn as_bytes(&self) -> (r: &[u8])
        ensures
            r@ == vstd::utf8::encode_utf8(self@),
    {
        self.0.as_str().as_bytes()
    }
}

impl Clone for ClientKey {
    fn clone(&self) -> (r: Self)
        ensures
            r@ == self@,
    {
        proof {
            use_type_invariant(self);
        }
        ClientKey(self.0.clone())
    }
}

/// File type with a lowercase extension for use in file IDs.
#[derive(Debug, PartialEq, Eq)]
pub enum FileType {
    Jpeg,
    Png,
    Gif,
    Mp4,
    Webm,
    Webp,
    Avif,
    Jxl,
    Other(String),
}

/// A file type with its extension as characters.
pub ghost enum FileTypeView {
    Jpeg,
    Png,
    Gif,
    Mp4,
    Webm,
    Webp,
    Avif,
    Jxl,
    Other(Seq<char>),
}

impl View for FileType {
    type V = FileTypeView;

    open spec fn view(&self) -> FileTypeView {
        match self {
            FileType::Jpeg => FileTypeView::Jpeg,
            FileType::Png => FileTypeView::Png,
            FileType::Gif => FileTypeView::Gif,
            FileType::Mp4 => FileTypeView::Mp4,
            FileType::Webm => FileTypeView::Webm,
            FileType::Webp => FileTypeView::Webp,
            FileType::Avif => FileTypeView::Avif,
            FileType::Jxl => FileTypeView::Jxl,
            FileType::Other(s) => FileTypeView::Other(s@),
        }
    }
}

/// The type that a lower-case extension stands for.
pub open spec fn type_of_ext(ext: Seq<char>) -> FileTypeView {
    if ext == "jpg"@ || ext == "jpeg"@ {
        FileTypeView::Jpeg
    } else if ext == "png"@ {
        FileTypeView::Png
    } else if ext == "gif"@ {
        FileTypeView::Gif
    } else if ext == "mp4"@ {
        FileTypeView::Mp4
    } else if ext == "wbm"@ || ext == "webm"@ {
        FileTypeView::Webm
    } else if ext == "wbp"@ || ext == "webp"@ {
        FileTypeView::Webp
    } else if ext == "avf"@ || ext == "avif"@ {
        FileTypeView::Avif
    } else if ext == "jxl"@ {
        FileTypeView::Jxl
    } else {
        FileTypeView::Other(ext)
    }
}

/// The extension of a type in a file ID.
pub open spec fn ext_of(t: FileTypeView) -> Seq<char> {
    match t {
        FileTypeView::Jpeg => "jpg"@,
        FileTypeView::Png => "png"@,
        FileTypeView::Gif => "gif"@,
        FileTypeView::Mp4 => "mp4"@,
        FileTypeView::Webm => "wbm"@,
        FileTypeView::Webp => "wbp"@,
        FileTypeView::Avif => "avf"@,
        FileTypeView::Jxl => "jxl"@,
        FileTypeView::Other(s) => s,
    }
}

/// The media type of a file type.
pub open spec fn mime_of(t: FileTypeView) -> Seq<char> {
    match t {
        FileTypeView::Jpeg => "image/jpeg"@,
        FileTypeView::Png => "image/png"@,
        FileTypeView::Gif => "image/gif"@,
        FileTypeView::Mp4 => "video/mp4"@,
        FileTypeView::Webm => "video/webm"@,
        FileTypeView::Webp => "image/webp"@,
        FileTypeView::Avif => "image/avif"@,
        FileTypeView::Jxl => "image/jxl"@,
        FileTypeView::Other(_) => "application/octet-stream"@,
    }
}

impl FileType {
    /// The type of an extension, whatever its case.
    pub fn from_ext(ext: &str) -> (r: Self)
        ensures
            r@ == type_of_ext(crate::text::lower(ext@)),
            vstd::utf8::is_ascii_chars(ext@) ==> r@ == type_of_ext(crate::text::ascii_lower(ext@)),
    {
        let lower = crate::text::to_lowercase(ext);
        let e = lower.as_str();
        if crate::text::str_eq(e, "jpg") || crate::text::str_eq(e, "jpeg") {
            FileType::Jpeg
        } else if crate::text::str_eq(e, "png") {
            FileType::Png
        } else if crate::text::str_eq(e, "gif") {
            FileType::Gif
        } else if crate::text::str_eq(e, "mp4") {
            FileType::Mp4
        } else if crate::text::str_eq(e, "wbm") || crate::text::str_eq(e, "webm") {
            FileType::Webm
        } else if crate::text::str_eq(e, "wbp") || crate::text::str_eq(e, "webp") {
            FileType::Webp
        } else if crate::text::str_eq(e, "avf") || crate::text::str_eq(e, "avif") {
            FileType::Avif
        } else if crate::text::str_eq(e, "jxl") {
            FileType::Jxl
        } else {
            FileType::Other(String::from_str(e))
        }
    }

    pub fn as_mime(&self) -> (r: &str)
        ensures
            r@ == mime_of(self@),
    {
        match self {
            FileType::Jpeg => "image/jpeg",
            FileType::Png => "image/png",
            FileType::Gif => "image/gif",
            FileType::Mp4 => "video/mp4",
            FileType::Webm => "video/webm",
            FileType::Webp => "image/webp",
            FileType::Avif => "image/avif",
            FileType::Jxl => "image/jxl",
            FileType::Other(_) => "application/octet-stream",
        }
    }

    /// The lowercase extension for use in file IDs.
    pub fn as_ext(&self) -> (r: &str)
        ensures
            r@ == ext_of(self@),
    {
        match self {
            FileType::Jpeg => "jpg",
            FileType::Png => "png",
            FileType::Gif => "gif",
            FileType::Mp4 => "mp4",
            FileType::Webm => "wbm",
            FileType::Webp => "wbp",
            FileType::Avif => "avf",
            FileType::Jxl => "jxl",
            FileType::Other(s) => s.as_str(),
        }
    }
}

impl Clone for FileType {
    fn clone(&self) -> (r: Self)
        ensures
            r@ == self@,
    {
        match self {
            FileType::Jpeg => FileType::Jpeg,
            FileType::Png => FileType::Png,
            FileType::Gif => FileType::Gif,
            FileType::Mp4 => FileType::Mp4,
            FileType::Webm => FileType::Webm,
            FileType::Webp => FileType::Webp,
            FileType::Avif => FileType::Avif,
            FileType::Jxl => FileType::Jxl,
            FileType::Other(s) => FileType::Other(s.clone()),
        }
    }
}

} // verus!
