//! One result of a listing.

use crate::metadata::{EntryMode, Metadata, MetadataView};
use crate::text::ends_with_slash;
use vstd::prelude::*;

verus! {

/// An entry as contracts see it.
pub struct EntryView {
    pub path: Seq<char>,
    pub meta: MetadataView,
}

impl EntryView {
    /// A directory's path ends in a slash, a file's does not.
    pub open spec fn well_formed(self) -> bool {
        &&& self.meta.mode == EntryMode::DIR ==> ends_with_slash(self.path)
        &&& self.meta.mode == EntryMode::FILE ==> !ends_with_slash(self.path)
    }

    /// Whether the entry is a directory.
    pub open spec fn is_dir(self) -> bool {
        self.meta.mode == EntryMode::DIR
    }
}

/// The views of a batch of entries, in order.
pub open spec fn entries_view(entries: Seq<Entry>) -> Seq<EntryView> {
    entries.map_values(|e: Entry| e@)
}

/// A path with what the listing said of it.
#[derive(Debug)]
pub struct Entry {
    path: String,
    meta: Metadata,
}

impl View for Entry {
    type V = EntryView;

    closed spec fn view(&self) -> EntryView {
        EntryView { path: self.path@, meta: self.meta@ }
    }
}

impl Clone for Entry {
    fn clone(&self) -> (r: Entry)
        ensures
            r@ == self@,
    {
        Entry { path: self.path.clone(), meta: self.meta.clone() }
    }
}

impl Entry {
    /// An entry for `path`.
    pub fn new(path: &str, meta: Metadata) -> (r: Entry)
        ensures
            r@ == (EntryView { path: path@, meta: meta@ }),
    {
        Entry { path: path.to_owned(), meta }
    }

    /// The entry's path.
    pub fn path(&self) -> (r: &str)
        ensures
            r@ == self@.path,
    {
        self.path.as_str()
    }

    /// The entry's mode.
    pub fn mode(&self) -> (r: EntryMode)
        ensures
            r == self@.meta.mode,
    {
        self.meta.mode()
    }

    /// What the listing said of the entry.
    pub fn metadata(&self) -> (r: &Metadata)
        ensures
            r@ == self@.meta,
    {
        &self.meta
    }
}

} // verus!
