//! The file registry: an append-only store assigning a fresh [`FileId`] to
//! each (path, source text) pair in registration order. Entries are never
//! removed or changed.

use vstd::prelude::*;

use crate::report::FileId;

verus! {

/// One registered file: its display path and its full source text.
#[derive(Debug)]
pub struct FileEntry {
    pub path: String,
    pub source: String,
}

/// The append-only registry of every file opened during a run.
#[derive(Debug)]
pub struct FileLibrary {
    pub files: Vec<FileEntry>,
}

impl FileLibrary {
    /// The registered entries, in registration order.
    pub open spec fn entries(self) -> Seq<FileEntry> {
        self.files@
    }

    /// An empty registry.
    pub fn new() -> (r: Self)
        ensures
            r.entries() =~= Seq::<FileEntry>::empty(),
    {
        FileLibrary { files: Vec::new() }
    }

    /// Registers a file and returns its fresh identifier: the number of
    /// entries registered before it.
    pub fn add_file(&mut self, path: String, source: String) -> (id: FileId)
        ensures
            id == old(self).entries().len(),
            final(self).entries() =~= old(self).entries().push(FileEntry { path, source }),
    {
        let id = self.files.len();
        self.files.push(FileEntry { path, source });
        id
    }

    /// How many files are registered.
    pub fn len(&self) -> (n: usize)
        ensures
            n == self.entries().len(),
    {
        self.files.len()
    }

    /// Pure lookup of a registered file.
    pub fn get(&self, id: FileId) -> (e: &FileEntry)
        requires
            id < self.entries().len(),
        ensures
            *e == self.entries()[id as int],
    {
        &self.files[id]
    }
}

} // verus!
