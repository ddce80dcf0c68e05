//! The immutable folder-index snapshot: one entry per regular file under a
//! root, keyed by canonical path.

use crate::index::file_info::{FileInfo, FileInfoSpec};
use vstd::multiset::Multiset;
use vstd::prelude::*;

verus! {

broadcast use vstd::seq_lib::group_seq_lib_default;

/// Point-in-time snapshot of a directory subtree. Built once per indexing
/// pass and never mutated in place: a changed file produces a new snapshot.
#[derive(Debug, PartialEq, Eq)]
pub struct FolderIndex {
    pub entries: Vec<FileInfo>,
}

impl View for FolderIndex {
    type V = Seq<FileInfoSpec>;

    open spec fn view(&self) -> Seq<FileInfoSpec> {
        self.entries@.map_values(|f: FileInfo| f@)
    }
}

impl FolderIndex {
    /// Paths are unique: the snapshot is a mapping from path to entry.
    pub open spec fn wf(self) -> bool {
        forall|i: int, j: int|
            0 <= i < j < self@.len() ==> self@[i].path != self@[j].path
    }

    /// Whether some entry carries the given path.
    pub open spec fn spec_contains_path(self, path: Seq<char>) -> bool {
        exists|i: int| 0 <= i < self@.len() && self@[i].path == path
    }

    /// Builds a snapshot directly from its entries.
    pub fn with_entires(entries: Vec<FileInfo>) -> (r: FolderIndex)
        ensures
            r@ == entries@.map_values(|f: FileInfo| f@),
    {
        FolderIndex { entries }
    }

    /// The snapshot's entries, in insertion order.
    pub fn entries(&self) -> (r: &Vec<FileInfo>)
        ensures
            r@.map_values(|f: FileInfo| f@) == self@,
    {
        &self.entries
    }

    /// Number of files in the snapshot.
    pub fn len(&self) -> (r: usize)
        ensures
            r == self@.len(),
    {
        self.entries.len()
    }

    /// Looks one entry up by path. Returns the entry exactly when the
    /// snapshot holds the path.
    pub fn find(&self, path: &String) -> (r: Option<&FileInfo>)
        ensures
            match r {
                Some(f) => self.spec_contains_path(path@) && self@.contains(f@) && f@.path
                    == path@,
                None => !self.spec_contains_path(path@),
            },
    {
        let mut k: usize = 0;
        while k < self.entries.len()
            invariant
                k <= self.entries@.len(),
                self@.len() == self.entries@.len(),
                forall|i: int| 0 <= i < k ==> self@[i].path != path@,
            decreases self.entries@.len() - k,
        {
            if self.entries[k].path == *path {
                proof {
                    assert(self@[k as int] == self.entries@[k as int]@);
                    assert(self@.contains(self@[k as int]));
                }
                return Some(&self.entries[k]);
            }
            k = k + 1;
        }
        None
    }

    /// Builds the snapshot from the per-file outcomes of one directory
    /// walk: each `Some` is a successfully indexed file, each `None` a file
    /// whose indexing failed. Failed files are omitted; the snapshot holds
    /// exactly the successful entries, in walk order.
    pub fn from_results(results: Vec<Option<FileInfo>>) -> (r: FolderIndex)
        ensures
            r@ == ok_entries(results@),
    {
        let mut remaining = results;
        let ghost all = remaining@;
        let mut entries: Vec<FileInfo> = Vec::new();
        let ghost k = 0int;
        while remaining.len() > 0
            invariant
                0 <= k <= all.len(),
                remaining@ == all.skip(k),
                entries@.map_values(|f: FileInfo| f@) == ok_entries(all.take(k)),
            decreases remaining@.len(),
        {
            let item = remaining.remove(0);
            proof {
                assert(all.take(k + 1).drop_last() =~= all.take(k));
                assert(all.take(k + 1).last() == all[k]);
                assert(all.skip(k).drop_first() =~= all.skip(k + 1));
            }
            match item {
                Some(f) => {
                    let ghost before = entries@;
                    entries.push(f);
                    proof {
                        assert(entries@.map_values(|f: FileInfo| f@) =~= before.map_values(
                            |f: FileInfo| f@,
                        ).push(f@));
                    }
                },
                None => {},
            }
            proof {
                k = k + 1;
            }
        }
        proof {
            assert(all.take(k) =~= all);
        }
        FolderIndex { entries }
    }
}

/// The entries a walk's outcomes contribute to the snapshot: the views of
/// the `Some` results, in order.
pub open spec fn ok_entries(results: Seq<Option<FileInfo>>) -> Seq<FileInfoSpec>
    decreases results.len(),
{
    if results.len() == 0 {
        Seq::empty()
    } else {
        match results.last() {
            Some(f) => ok_entries(results.drop_last()).push(f@),
            None => ok_entries(results.drop_last()),
        }
    }
}

/// The snapshot holds one entry per successful outcome: as many entries as
/// the walk had results that were not failures.
proof fn lemma_ok_entries_len(results: Seq<Option<FileInfo>>)
    ensures
        ok_entries(results).len() == results.len() - results.to_multiset().count(
            Option::<FileInfo>::None,
        ),
    decreases results.len(),
{
    broadcast use vstd::seq_lib::group_to_multiset_ensures;

    if results.len() == 0 {
        assert(results.to_multiset() =~= Multiset::<Option<FileInfo>>::empty());
    } else {
        let d = results.drop_last();
        lemma_ok_entries_len(d);
        assert(results =~= d.push(results.last()));
        assert(results.to_multiset() =~= d.to_multiset().insert(results.last()));
    }
}

/// An entry stands in the snapshot exactly when the walk produced it as a
/// successful outcome.
proof fn lemma_ok_entries_contains(results: Seq<Option<FileInfo>>, e: FileInfoSpec)
    ensures
        ok_entries(results).contains(e) <==> exists|f: FileInfo|
            #[trigger] results.contains(Some(f)) && f@ == e,
    decreases results.len(),
{
    if results.len() == 0 {
        if exists|f: FileInfo| #[trigger] results.contains(Some(f)) && f@ == e {
            let f = choose|f: FileInfo| #[trigger] results.contains(Some(f)) && f@ == e;
            let i = choose|i: int| 0 <= i < results.len() && results[i] == Some(f);
            assert(false);
        }
    } else {
        let d = results.drop_last();
        lemma_ok_entries_contains(d, e);
        assert forall|f: FileInfo| #[trigger] d.contains(Some(f)) implies results.contains(
            Some(f),
        ) by {
            let i = choose|i: int| 0 <= i < d.len() && d[i] == Some(f);
            assert(results[i] == Some(f));
        }
        if ok_entries(results).contains(e) {
            match results.last() {
                Some(f) => {
                    if f@ == e {
                        assert(results[results.len() - 1] == Some(f));
                        assert(results.contains(Some(f)));
                    } else {
                        assert(ok_entries(d).contains(e)) by {
                            let i = choose|i: int|
                                0 <= i < ok_entries(results).len() && ok_entries(results)[i] == e;
                            assert(i < ok_entries(d).len());
                            assert(ok_entries(d)[i] == e);
                        }
                        let g = choose|g: FileInfo| #[trigger] d.contains(Some(g)) && g@ == e;
                        assert(results.contains(Some(g)));
                    }
                },
                None => {
                    let g = choose|g: FileInfo| #[trigger] d.contains(Some(g)) && g@ == e;
                    assert(results.contains(Some(g)));
                },
            }
        }
        if exists|f: FileInfo| #[trigger] results.contains(Some(f)) && f@ == e {
            let f = choose|f: FileInfo| #[trigger] results.contains(Some(f)) && f@ == e;
            let i = choose|i: int| 0 <= i < results.len() && results[i] == Some(f);
            if i == results.len() - 1 {
                assert(results.last() == Some(f));
                assert(ok_entries(results)[ok_entries(results).len() - 1] == e);
                assert(ok_entries(results).contains(e));
            } else {
                assert(d[i] == Some(f));
                assert(d.contains(Some(f)));
                assert(exists|g: FileInfo| #[trigger] d.contains(Some(g)) && g@ == e);
                let j = choose|j: int| 0 <= j < ok_entries(d).len() && ok_entries(d)[j] == e;
                assert(ok_entries(results)[j] == e);
                assert(ok_entries(results).contains(e));
            }
        }
    }
}

/// Walk-order independence: two walks over the same files, in any order,
/// build snapshots with the same number of entries and exactly the same
/// entries. The per-file outcomes are compared as a multiset, so only what
/// the walk produced matters, never the order it was produced in.
pub proof fn lemma_build_order_independent(
    r1: Seq<Option<FileInfo>>,
    r2: Seq<Option<FileInfo>>,
)
    requires
        r1.to_multiset() == r2.to_multiset(),
    ensures
        ok_entries(r1).len() == ok_entries(r2).len(),
        forall|e: FileInfoSpec| ok_entries(r1).contains(e) <==> ok_entries(r2).contains(e),
{
    broadcast use vstd::seq_lib::group_to_multiset_ensures;

    lemma_ok_entries_len(r1);
    lemma_ok_entries_len(r2);
    assert(r1.len() == r1.to_multiset().len());
    assert(r2.len() == r2.to_multiset().len());
    assert forall|e: FileInfoSpec|
        ok_entries(r1).contains(e) <==> ok_entries(r2).contains(e) by {
        lemma_ok_entries_contains(r1, e);
        lemma_ok_entries_contains(r2, e);
        if ok_entries(r1).contains(e) {
            let f = choose|f: FileInfo| #[trigger] r1.contains(Some(f)) && f@ == e;
            assert(r1.to_multiset().count(Some(f)) > 0);
            assert(r2.contains(Some(f)));
        }
        if ok_entries(r2).contains(e) {
            let f = choose|f: FileInfo| #[trigger] r2.contains(Some(f)) && f@ == e;
            assert(r2.to_multiset().count(Some(f)) > 0);
            assert(r1.contains(Some(f)));
        }
    }
}

} // verus!
