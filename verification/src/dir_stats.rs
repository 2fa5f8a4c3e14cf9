use vstd::prelude::*;

verus! {

/// What a directory entry is.
pub enum EntryKind {
    /// A file of this many bytes.
    File(u64),
    /// A directory.
    Dir,
    /// Anything else, such as a broken link.
    Other,
}

/// What a walk does with a directory entry.
pub enum EntryAction {
    /// The file was counted.
    Counted,
    /// The directory is to be walked and its totals added.
    Descend,
    /// The entry is left alone.
    Skip,
}

/// The number of files and their total size in bytes found under a
/// directory.
pub struct DirStats {
    pub file_count: usize,
    pub total_size: u64,
}

impl DirStats {
    /// No files, no bytes.
    pub fn new() -> (s: Self)
        ensures
            s.file_count == 0,
            s.total_size == 0,
    {
        DirStats { file_count: 0, total_size: 0 }
    }

    /// Counts one more file of `size` bytes.
    pub fn add_file(&mut self, size: u64)
        requires
            old(self).file_count < usize::MAX,
            old(self).total_size + size <= u64::MAX,
        ensures
            final(self).file_count == old(self).file_count + 1,
            final(self).total_size == old(self).total_size + size,
    {
        self.file_count = self.file_count + 1;
        self.total_size = self.total_size + size;
    }

    /// Adds the files and bytes found in a subdirectory.
    pub fn add_dir(&mut self, sub: &DirStats)
        requires
            old(self).file_count + sub.file_count <= usize::MAX,
            old(self).total_size + sub.total_size <= u64::MAX,
        ensures
            final(self).file_count == old(self).file_count + sub.file_count,
            final(self).total_size == old(self).total_size + sub.total_size,
    {
        self.file_count = self.file_count + sub.file_count;
        self.total_size = self.total_size + sub.total_size;
    }

    /// One step of a directory walk: counts a file, asks to descend into a
    /// directory, and skips anything else.
    pub fn visit_entry(&mut self, kind: EntryKind) -> (action: EntryAction)
        requires
            kind matches EntryKind::File(size) ==> old(self).file_count < usize::MAX
                && old(self).total_size + size <= u64::MAX,
        ensures
            match kind {
                EntryKind::File(size) => action == EntryAction::Counted && final(self).file_count
                    == old(self).file_count + 1 && final(self).total_size == old(self).total_size
                    + size,
                EntryKind::Dir => action == EntryAction::Descend && *final(self) == *old(self),
                EntryKind::Other => action == EntryAction::Skip && *final(self) == *old(self),
            },
    {
        match kind {
            EntryKind::File(size) => {
                self.add_file(size);
                EntryAction::Counted
            },
            EntryKind::Dir => EntryAction::Descend,
            EntryKind::Other => EntryAction::Skip,
        }
    }
}

} // verus!
