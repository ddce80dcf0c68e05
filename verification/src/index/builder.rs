//! Builder for one indexing pass over a directory tree.
//!
//! Walking the tree and reading files is I/O and happens at the edge: the
//! caller visits every regular file under the root, indexes each one from
//! its contents (see the file-entry constructor), and assembles the
//! snapshot from the per-file outcomes with the folder index's
//! result-aggregation constructor. Per-file failures are reported as failed
//! outcomes and the file is omitted; a single file's error never fails the
//! pass.

use vstd::prelude::*;

verus! {

/// One indexing pass, rooted at a fixed path.
pub struct IndexBuilder {
    pub path: String,
}

impl IndexBuilder {
    /// Remembers the root the snapshot will be built from.
    pub fn from_path(folder_path: String) -> (r: IndexBuilder)
        ensures
            r.path@ == folder_path@,
    {
        IndexBuilder { path: folder_path }
    }

    /// The root of the tree being indexed.
    pub fn path(&self) -> (r: &str)
        ensures
            r@ == self.path@,
    {
        self.path.as_str()
    }
}

} // verus!
