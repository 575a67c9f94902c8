//! What a backend supports natively, and who it is.

use vstd::prelude::*;

verus! {

/// The features that a backend supports by itself. The completion layer reads
/// the `read_can_*` and `list*` fields; the others serve the operator.
#[derive(Clone, Copy, Debug)]
pub struct Capability {
    pub stat: bool,
    pub read: bool,
    /// Readers of the backend can seek.
    pub read_can_seek: bool,
    /// Readers of the backend yield chunks.
    pub read_can_next: bool,
    pub write: bool,
    pub write_can_multi: bool,
    pub append: bool,
    pub create_dir: bool,
    pub delete: bool,
    pub copy: bool,
    pub rename: bool,
    pub list: bool,
    /// Listing one level, with `/` as the delimiter.
    pub list_with_delimiter_slash: bool,
    /// Listing everything under a prefix.
    pub list_without_delimiter: bool,
    pub presign: bool,
    pub batch: bool,
    /// The most operations that one batch may hold.
    pub batch_max_operations: Option<usize>,
    pub blocking: bool,
}

impl Capability {
    /// The record of a backend that supports nothing.
    pub open spec fn nothing() -> Capability {
        Capability {
            stat: false,
            read: false,
            read_can_seek: false,
            read_can_next: false,
            write: false,
            write_can_multi: false,
            append: false,
            create_dir: false,
            delete: false,
            copy: false,
            rename: false,
            list: false,
            list_with_delimiter_slash: false,
            list_without_delimiter: false,
            presign: false,
            batch: false,
            batch_max_operations: None,
            blocking: false,
        }
    }

    /// What the completion layer offers over a backend with this record:
    /// readers seek and stream, and listings take both delimiters.
    pub open spec fn completed(self) -> Capability {
        Capability {
            read_can_seek: true,
            read_can_next: true,
            list_with_delimiter_slash: true,
            list_without_delimiter: true,
            ..self
        }
    }

    /// The record that the completion layer reports.
    pub fn complete(self) -> (r: Capability)
        ensures
            r == self.completed(),
    {
        Capability {
            read_can_seek: true,
            read_can_next: true,
            list_with_delimiter_slash: true,
            list_without_delimiter: true,
            ..self
        }
    }
}

impl Default for Capability {
    fn default() -> (r: Capability)
        ensures
            r == Capability::nothing(),
    {
        Capability {
            stat: false,
            read: false,
            read_can_seek: false,
            read_can_next: false,
            write: false,
            write_can_multi: false,
            append: false,
            create_dir: false,
            delete: false,
            copy: false,
            rename: false,
            list: false,
            list_with_delimiter_slash: false,
            list_without_delimiter: false,
            presign: false,
            batch: false,
            batch_max_operations: None,
            blocking: false,
        }
    }
}

/// The family that a backend belongs to.
#[derive(Clone, Copy, Debug, PartialEq, Eq, Hash)]
pub enum Scheme {
    Azblob,
    Fs,
    Gcs,
    Http,
    Memory,
    Supabase,
    /// A backend from outside this crate, under the name it gives itself.
    Custom(&'static str),
}

impl Scheme {
    /// The scheme's tag.
    pub open spec fn tag(self) -> Seq<char> {
        match self {
            Scheme::Azblob => "azblob"@,
            Scheme::Fs => "fs"@,
            Scheme::Gcs => "gcs"@,
            Scheme::Http => "http"@,
            Scheme::Memory => "memory"@,
            Scheme::Supabase => "supabase"@,
            Scheme::Custom(name) => name@,
        }
    }

    /// The scheme's tag, as used in labels and error contexts.
    pub fn into_static(self) -> (r: &'static str)
        ensures
            r@ == self.tag(),
    {
        match self {
            Scheme::Azblob => "azblob",
            Scheme::Fs => "fs",
            Scheme::Gcs => "gcs",
            Scheme::Http => "http",
            Scheme::Memory => "memory",
            Scheme::Supabase => "supabase",
            Scheme::Custom(name) => name,
        }
    }
}

/// An accessor's description as contracts see it.
pub struct AccessorInfoView {
    pub scheme: Scheme,
    pub root: Seq<char>,
    pub name: Seq<char>,
    pub capability: Capability,
}

/// Who an accessor is and what it supports.
#[derive(Debug)]
pub struct AccessorInfo {
    scheme: Scheme,
    root: String,
    name: String,
    capability: Capability,
}

impl View for AccessorInfo {
    type V = AccessorInfoView;

    closed spec fn view(&self) -> AccessorInfoView {
        AccessorInfoView {
            scheme: self.scheme,
            root: self.root@,
            name: self.name@,
            capability: self.capability,
        }
    }
}

impl Clone for AccessorInfo {
    fn clone(&self) -> (r: AccessorInfo)
        ensures
            r@ == self@,
    {
        AccessorInfo {
            scheme: self.scheme,
            root: self.root.clone(),
            name: self.name.clone(),
            capability: self.capability,
        }
    }
}

impl AccessorInfo {
    /// The description of a backend of the given family.
    pub fn new(scheme: Scheme, root: &str, name: &str, capability: Capability) -> (r: AccessorInfo)
        ensures
            r@ == (AccessorInfoView { scheme, root: root@, name: name@, capability }),
    {
        AccessorInfo { scheme, root: root.to_owned(), name: name.to_owned(), capability }
    }

    /// The backend's family.
    pub fn scheme(&self) -> (r: Scheme)
        ensures
            r == self@.scheme,
    {
        self.scheme
    }

    /// The directory under which the backend works.
    pub fn root(&self) -> (r: &str)
        ensures
            r@ == self@.root,
    {
        self.root.as_str()
    }

    /// The backend's name: a bucket, a container, a host.
    pub fn name(&self) -> (r: &str)
        ensures
            r@ == self@.name,
    {
        self.name.as_str()
    }

    /// What the backend supports.
    pub fn capability(&self) -> (r: Capability)
        ensures
            r == self@.capability,
    {
        self.capability
    }

    /// The same description with another capability record.
    pub fn with_capability(self, capability: Capability) -> (r: AccessorInfo)
        ensures
            r@ == (AccessorInfoView { capability, ..self@ }),
    {
        let mut info = self;
        info.capability = capability;
        info
    }
}

} // verus!
