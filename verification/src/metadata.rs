//! What is known of an object: its mode, its attributes, and which of them
//! come from the backend itself.

use vstd::prelude::*;

verus! {

/// Whether a path is a file or a directory.
#[allow(clippy::upper_case_acronyms)]
#[derive(Clone, Copy, Debug, PartialEq, Eq, Hash, Structural)]
pub enum EntryMode {
    /// A file: its path does not end in a slash.
    FILE,
    /// A directory: its path ends in a slash.
    DIR,
    /// The backend did not say.
    Unknown,
}

impl EntryMode {
    /// Whether this is a directory.
    pub fn is_dir(self) -> (r: bool)
        ensures
            r == (self == EntryMode::DIR),
    {
        self == EntryMode::DIR
    }

    /// Whether this is a file.
    pub fn is_file(self) -> (r: bool)
        ensures
            r == (self == EntryMode::FILE),
    {
        self == EntryMode::FILE
    }
}

/// One attribute of a metadata record, or `Complete` for all of them.
#[derive(Clone, Copy, Debug, PartialEq, Eq, Hash, Structural)]
pub enum Metakey {
    /// Every attribute is authoritative.
    Complete,
    Mode,
    CacheControl,
    ContentDisposition,
    ContentLength,
    ContentMd5,
    ContentRange,
    ContentType,
    Etag,
    LastModified,
    Version,
}

impl Metakey {
    /// The bit that stands for this key.
    pub open spec fn mask(self) -> u16 {
        match self {
            Metakey::Complete => 0x001,
            Metakey::Mode => 0x002,
            Metakey::CacheControl => 0x004,
            Metakey::ContentDisposition => 0x008,
            Metakey::ContentLength => 0x010,
            Metakey::ContentMd5 => 0x020,
            Metakey::ContentRange => 0x040,
            Metakey::ContentType => 0x080,
            Metakey::Etag => 0x100,
            Metakey::LastModified => 0x200,
            Metakey::Version => 0x400,
        }
    }

    fn bit(self) -> (m: u16)
        ensures
            m == self.mask(),
    {
        match self {
            Metakey::Complete => 0x001,
            Metakey::Mode => 0x002,
            Metakey::CacheControl => 0x004,
            Metakey::ContentDisposition => 0x008,
            Metakey::ContentLength => 0x010,
            Metakey::ContentMd5 => 0x020,
            Metakey::ContentRange => 0x040,
            Metakey::ContentType => 0x080,
            Metakey::Etag => 0x100,
            Metakey::LastModified => 0x200,
            Metakey::Version => 0x400,
        }
    }
}

/// A set of metadata keys.
#[derive(Clone, Copy, Debug, PartialEq, Eq, Hash, Structural)]
pub struct MetakeySet {
    bits: u16,
}

/// All the bits that stand for a key.
pub const ALL_KEYS: u16 = 0x7ff;

proof fn lemma_single_bits(a: u16, b: u16)
    ensures
        (a & b & 0x7ff == b & 0x7ff) <==> {
            &&& (b & 0x001 != 0 ==> a & 0x001 != 0)
            &&& (b & 0x002 != 0 ==> a & 0x002 != 0)
            &&& (b & 0x004 != 0 ==> a & 0x004 != 0)
            &&& (b & 0x008 != 0 ==> a & 0x008 != 0)
            &&& (b & 0x010 != 0 ==> a & 0x010 != 0)
            &&& (b & 0x020 != 0 ==> a & 0x020 != 0)
            &&& (b & 0x040 != 0 ==> a & 0x040 != 0)
            &&& (b & 0x080 != 0 ==> a & 0x080 != 0)
            &&& (b & 0x100 != 0 ==> a & 0x100 != 0)
            &&& (b & 0x200 != 0 ==> a & 0x200 != 0)
            &&& (b & 0x400 != 0 ==> a & 0x400 != 0)
        },
{
    assert((a & b & 0x7ff == b & 0x7ff) <==> {
        &&& (b & 0x001 != 0 ==> a & 0x001 != 0)
        &&& (b & 0x002 != 0 ==> a & 0x002 != 0)
        &&& (b & 0x004 != 0 ==> a & 0x004 != 0)
        &&& (b & 0x008 != 0 ==> a & 0x008 != 0)
        &&& (b & 0x010 != 0 ==> a & 0x010 != 0)
        &&& (b & 0x020 != 0 ==> a & 0x020 != 0)
        &&& (b & 0x040 != 0 ==> a & 0x040 != 0)
        &&& (b & 0x080 != 0 ==> a & 0x080 != 0)
        &&& (b & 0x100 != 0 ==> a & 0x100 != 0)
        &&& (b & 0x200 != 0 ==> a & 0x200 != 0)
        &&& (b & 0x400 != 0 ==> a & 0x400 != 0)
    }) by (bit_vector);
}

proof fn lemma_union_bits(a: u16, b: u16, m: u16)
    ensures
        ((a | b) & m != 0) <==> (a & m != 0 || b & m != 0),
        0u16 & m == 0,
{
    assert(((a | b) & m != 0) <==> (a & m != 0 || b & m != 0)) by (bit_vector);
    assert(0u16 & m == 0) by (bit_vector);
}

proof fn lemma_distinct_bits(k: Metakey, l: Metakey)
    ensures
        (k.mask() & l.mask() != 0) <==> k == l,
{
    let a = k.mask();
    let b = l.mask();
    assert((a == 0x001 || a == 0x002 || a == 0x004 || a == 0x008 || a == 0x010 || a == 0x020 || a
        == 0x040 || a == 0x080 || a == 0x100 || a == 0x200 || a == 0x400) && (b == 0x001 || b
        == 0x002 || b == 0x004 || b == 0x008 || b == 0x010 || b == 0x020 || b == 0x040 || b
        == 0x080 || b == 0x100 || b == 0x200 || b == 0x400) ==> ((a & b != 0) <==> a == b))
        by (bit_vector);
}

impl MetakeySet {
    /// Whether the set holds `key`.
    pub closed spec fn has(self, key: Metakey) -> bool {
        self.bits & key.mask() != 0
    }

    /// Whether every key of `other` is in this set.
    pub open spec fn includes(self, other: MetakeySet) -> bool {
        forall|k: Metakey| other.has(k) ==> self.has(k)
    }

    /// The keys of a record that knows its mode and nothing else.
    pub closed spec fn initial(mode: EntryMode) -> MetakeySet {
        if mode == EntryMode::DIR {
            MetakeySet { bits: 0x003 }
        } else {
            MetakeySet { bits: 0x002 }
        }
    }

    /// The set without keys.
    pub fn empty() -> (s: MetakeySet)
        ensures
            forall|k: Metakey| !s.has(k),
    {
        let s = MetakeySet { bits: 0 };
        proof {
            assert forall|k: Metakey| !s.has(k) by {
                lemma_union_bits(0, 0, k.mask());
            }
        }
        s
    }

    /// The set that holds `key` alone.
    pub fn only(key: Metakey) -> (s: MetakeySet)
        ensures
            forall|k: Metakey| s.has(k) == (k == key),
    {
        let s = MetakeySet { bits: key.bit() };
        proof {
            assert forall|k: Metakey| s.has(k) == (k == key) by {
                lemma_distinct_bits(key, k);
            }
        }
        s
    }

    /// This set and `key`.
    pub fn with(self, key: Metakey) -> (s: MetakeySet)
        ensures
            forall|k: Metakey| s.has(k) == (self.has(k) || k == key),
    {
        let s = MetakeySet { bits: self.bits | key.bit() };
        proof {
            assert forall|k: Metakey| s.has(k) == (self.has(k) || k == key) by {
                lemma_union_bits(self.bits, key.mask(), k.mask());
                lemma_distinct_bits(key, k);
            }
        }
        s
    }

    /// The keys of either set.
    pub fn union(self, other: MetakeySet) -> (s: MetakeySet)
        ensures
            forall|k: Metakey| s.has(k) == (self.has(k) || other.has(k)),
    {
        let s = MetakeySet { bits: self.bits | other.bits };
        proof {
            assert forall|k: Metakey| s.has(k) == (self.has(k) || other.has(k)) by {
                lemma_union_bits(self.bits, other.bits, k.mask());
            }
        }
        s
    }

    /// Whether the set holds `key`.
    pub fn contains_key(self, key: Metakey) -> (r: bool)
        ensures
            r == self.has(key),
    {
        self.bits & key.bit() != 0
    }

    /// Whether every key of `other` is in this set.
    pub fn contains(self, other: MetakeySet) -> (r: bool)
        ensures
            r == self.includes(other),
    {
        proof {
            lemma_single_bits(self.bits, other.bits);
            if self.includes(other) {
                assert(other.has(Metakey::Complete) ==> self.has(Metakey::Complete));
                assert(other.has(Metakey::Mode) ==> self.has(Metakey::Mode));
                assert(other.has(Metakey::CacheControl) ==> self.has(Metakey::CacheControl));
                assert(other.has(Metakey::ContentDisposition) ==> self.has(
                    Metakey::ContentDisposition,
                ));
                assert(other.has(Metakey::ContentLength) ==> self.has(Metakey::ContentLength));
                assert(other.has(Metakey::ContentMd5) ==> self.has(Metakey::ContentMd5));
                assert(other.has(Metakey::ContentRange) ==> self.has(Metakey::ContentRange));
                assert(other.has(Metakey::ContentType) ==> self.has(Metakey::ContentType));
                assert(other.has(Metakey::Etag) ==> self.has(Metakey::Etag));
                assert(other.has(Metakey::LastModified) ==> self.has(Metakey::LastModified));
                assert(other.has(Metakey::Version) ==> self.has(Metakey::Version));
            }
        }
        self.bits & other.bits & ALL_KEYS == other.bits & ALL_KEYS
    }
}

/// A metadata record as contracts see it.
pub struct MetadataView {
    /// The attributes that the backend vouches for.
    pub bit: MetakeySet,
    pub mode: EntryMode,
    pub content_length: Option<u64>,
    pub content_type: Option<Seq<char>>,
    pub etag: Option<Seq<char>>,
    /// Seconds since the Unix epoch.
    pub last_modified: Option<i64>,
}

impl MetadataView {
    /// The length in bytes; zero when it is not known.
    pub open spec fn length(self) -> u64 {
        match self.content_length {
            Some(n) => n,
            None => 0,
        }
    }

    /// Whether `marked` is this record with every attribute marked
    /// authoritative.
    pub open spec fn completed_by(self, marked: MetadataView) -> bool {
        &&& marked == (MetadataView { bit: marked.bit, ..self })
        &&& forall|k: Metakey| marked.bit.has(k) == (self.bit.has(k) || k == Metakey::Complete)
    }
}

/// The view of an optional string.
pub open spec fn text_view(s: Option<String>) -> Option<Seq<char>> {
    match s {
        Some(s) => Some(s@),
        None => None,
    }
}

/// A record of nothing but a mode and the keys vouched for.
pub open spec fn bare_metadata(mode: EntryMode, bit: MetakeySet) -> MetadataView {
    MetadataView {
        bit,
        mode,
        content_length: None,
        content_type: None,
        etag: None,
        last_modified: None,
    }
}

/// The attributes of an object. A caller trusts an attribute only when its key
/// is in `bit`, or when `bit` holds `Complete`.
#[derive(Debug)]
pub struct Metadata {
    bit: MetakeySet,
    mode: EntryMode,
    content_length: Option<u64>,
    content_type: Option<String>,
    etag: Option<String>,
    last_modified: Option<i64>,
}

impl View for Metadata {
    type V = MetadataView;

    closed spec fn view(&self) -> MetadataView {
        MetadataView {
            bit: self.bit,
            mode: self.mode,
            content_length: self.content_length,
            content_type: text_view(self.content_type),
            etag: text_view(self.etag),
            last_modified: self.last_modified,
        }
    }
}

fn clone_text(s: &Option<String>) -> (r: Option<String>)
    ensures
        text_view(r) == text_view(*s),
{
    match s {
        Some(s) => Some(s.clone()),
        None => None,
    }
}

impl Clone for Metadata {
    fn clone(&self) -> (r: Metadata)
        ensures
            r@ == self@,
    {
        Metadata {
            bit: self.bit,
            mode: self.mode,
            content_length: self.content_length,
            content_type: clone_text(&self.content_type),
            etag: clone_text(&self.etag),
            last_modified: self.last_modified,
        }
    }
}

impl Metadata {
    /// The record that `new` makes for `mode`.
    pub open spec fn spec_new(mode: EntryMode) -> MetadataView {
        bare_metadata(mode, MetakeySet::initial(mode))
    }

    /// A record that knows the mode and nothing else. The mode is vouched
    /// for, and a directory, which has no other attribute, counts as complete.
    pub fn new(mode: EntryMode) -> (r: Metadata)
        ensures
            r@ == Metadata::spec_new(mode),
            forall|k: Metakey|
                r@.bit.has(k) == (k == Metakey::Mode || (k == Metakey::Complete && mode
                    == EntryMode::DIR)),
    {
        let bit = if mode.is_dir() {
            MetakeySet { bits: 0x003 }
        } else {
            MetakeySet { bits: 0x002 }
        };
        proof {
            assert(0x002u16 | 0x001u16 == 0x003u16) by (bit_vector);
            assert forall|k: Metakey|
                bit.has(k) == (k == Metakey::Mode || (k == Metakey::Complete && mode
                    == EntryMode::DIR)) by {
                lemma_union_bits(0x002, 0x001, k.mask());
                lemma_distinct_bits(Metakey::Mode, k);
                lemma_distinct_bits(Metakey::Complete, k);
            }
        }
        Metadata {
            bit,
            mode,
            content_length: None,
            content_type: None,
            etag: None,
            last_modified: None,
        }
    }

    /// The keys that the backend vouches for.
    pub fn bit(&self) -> (r: MetakeySet)
        ensures
            r == self@.bit,
    {
        self.bit
    }

    /// Replaces the keys that the backend vouches for.
    pub fn with_bit(self, bit: MetakeySet) -> (r: Metadata)
        ensures
            r@ == (MetadataView { bit, ..self@ }),
    {
        let mut m = self;
        m.bit = bit;
        m
    }

    /// The object's mode.
    pub fn mode(&self) -> (r: EntryMode)
        ensures
            r == self@.mode,
    {
        self.mode
    }

    /// Whether the object is a file.
    pub fn is_file(&self) -> (r: bool)
        ensures
            r == (self@.mode == EntryMode::FILE),
    {
        self.mode.is_file()
    }

    /// Whether the object is a directory.
    pub fn is_dir(&self) -> (r: bool)
        ensures
            r == (self@.mode == EntryMode::DIR),
    {
        self.mode.is_dir()
    }

    /// The length in bytes; zero when it is not known.
    pub fn content_length(&self) -> (r: u64)
        ensures
            r == self@.length(),
    {
        match self.content_length {
            Some(n) => n,
            None => 0,
        }
    }

    /// Sets the length and vouches for it.
    pub fn with_content_length(self, n: u64) -> (r: Metadata)
        ensures
            r@.content_length == Some(n),
            forall|k: Metakey| r@.bit.has(k) == (self@.bit.has(k) || k == Metakey::ContentLength),
            r@ == (MetadataView { content_length: Some(n), bit: r@.bit, ..self@ }),
    {
        let mut m = self;
        m.content_length = Some(n);
        m.bit = m.bit.with(Metakey::ContentLength);
        m
    }

    /// The media type, where one is known.
    pub fn content_type(&self) -> (r: Option<&str>)
        ensures
            match r {
                Some(s) => self@.content_type == Some(s@),
                None => self@.content_type is None,
            },
    {
        match &self.content_type {
            Some(s) => Some(s.as_str()),
            None => None,
        }
    }

    /// Sets the media type and vouches for it.
    pub fn with_content_type(self, v: &str) -> (r: Metadata)
        ensures
            forall|k: Metakey| r@.bit.has(k) == (self@.bit.has(k) || k == Metakey::ContentType),
            r@ == (MetadataView { content_type: Some(v@), bit: r@.bit, ..self@ }),
    {
        let mut m = self;
        m.content_type = Some(v.to_owned());
        m.bit = m.bit.with(Metakey::ContentType);
        m
    }

    /// The entity tag, where one is known.
    pub fn etag(&self) -> (r: Option<&str>)
        ensures
            match r {
                Some(s) => self@.etag == Some(s@),
                None => self@.etag is None,
            },
    {
        match &self.etag {
            Some(s) => Some(s.as_str()),
            None => None,
        }
    }

    /// Sets the entity tag and vouches for it.
    pub fn with_etag(self, v: &str) -> (r: Metadata)
        ensures
            forall|k: Metakey| r@.bit.has(k) == (self@.bit.has(k) || k == Metakey::Etag),
            r@ == (MetadataView { etag: Some(v@), bit: r@.bit, ..self@ }),
    {
        let mut m = self;
        m.etag = Some(v.to_owned());
        m.bit = m.bit.with(Metakey::Etag);
        m
    }

    /// The time of the last change in seconds since the Unix epoch, where it
    /// is known.
    pub fn last_modified(&self) -> (r: Option<i64>)
        ensures
            r == self@.last_modified,
    {
        self.last_modified
    }

    /// Sets the time of the last change and vouches for it.
    pub fn with_last_modified(self, v: i64) -> (r: Metadata)
        ensures
            forall|k: Metakey| r@.bit.has(k) == (self@.bit.has(k) || k == Metakey::LastModified),
            r@ == (MetadataView { last_modified: Some(v), bit: r@.bit, ..self@ }),
    {
        let mut m = self;
        m.last_modified = Some(v);
        m.bit = m.bit.with(Metakey::LastModified);
        m
    }
}

} // verus!
