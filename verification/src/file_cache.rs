//! In-memory cache of file metadata and block fingerprints, filled by the
//! background indexing pass and consulted by sessions.
//!
//! File metadata is keyed by canonical path; block lists are keyed by the
//! file's content-derived path identifier.

use crate::hashes::{path_digest, path_digest_of};
use crate::messages::block_info::{BlockInfo, BlockInfoSpec, PathId};
use crate::messages::file_info::{FileInfo, FileInfoSpec};
use vstd::prelude::*;
use vstd::utf8::encode_utf8;

verus! {

/// The cached blocks of one file, keyed by its path identifier.
pub struct BlockEntry {
    pub path_id: PathId,
    pub blocks: Vec<BlockInfo>,
}

/// Mathematical value of a [`BlockEntry`].
pub struct BlockEntrySpec {
    pub path_id: Seq<u8>,
    pub blocks: Seq<BlockInfoSpec>,
}

impl View for BlockEntry {
    type V = BlockEntrySpec;

    open spec fn view(&self) -> BlockEntrySpec {
        BlockEntrySpec {
            path_id: self.path_id@,
            blocks: self.blocks@.map_values(|b: BlockInfo| b@),
        }
    }
}

/// Whether some file entry in the sequence has the given value.
pub open spec fn seq_contains_file(s: Seq<FileInfo>, f: FileInfoSpec) -> bool {
    exists|i: int| 0 <= i < s.len() && s[i]@ == f
}

/// Whether some file entry in the sequence carries the given path.
pub open spec fn seq_has_path(s: Seq<FileInfo>, p: Seq<char>) -> bool {
    exists|i: int| 0 <= i < s.len() && s[i]@.path == p
}

/// Whether some block entry in the sequence has the given value.
pub open spec fn seq_contains_entry(s: Seq<BlockEntry>, e: BlockEntrySpec) -> bool {
    exists|i: int| 0 <= i < s.len() && s[i]@ == e
}

/// Cache of everything indexing has produced so far.
pub struct FileCache {
    pub file_info: Vec<FileInfo>,
    pub block_info: Vec<BlockEntry>,
}

impl FileCache {
    /// Keys are unique on both sides of the cache.
    pub open spec fn wf(self) -> bool {
        &&& forall|i: int, j: int|
            0 <= i < j < self.file_info@.len() ==> self.file_info@[i]@.path
                != self.file_info@[j]@.path
        &&& forall|i: int, j: int|
            0 <= i < j < self.block_info@.len() ==> self.block_info@[i]@.path_id
                != self.block_info@[j]@.path_id
    }

    /// Whether a file entry carries the given path.
    pub open spec fn spec_has_file(self, p: Seq<char>) -> bool {
        exists|i: int| 0 <= i < self.file_info@.len() && self.file_info@[i]@.path == p
    }

    /// Whether some file entry has the given value.
    pub open spec fn spec_contains_file(self, f: FileInfoSpec) -> bool {
        seq_contains_file(self.file_info@, f)
    }

    /// Whether a block entry carries the given path identifier.
    pub open spec fn spec_has_blocks(self, id: Seq<u8>) -> bool {
        exists|i: int| 0 <= i < self.block_info@.len() && self.block_info@[i]@.path_id == id
    }

    /// Whether some block entry has the given value.
    pub open spec fn spec_contains_blocks(self, e: BlockEntrySpec) -> bool {
        seq_contains_entry(self.block_info@, e)
    }

    /// Caches one file's metadata, replacing any entry the path already
    /// had. Entries for every other path are untouched.
    pub fn insert_file_info(&mut self, f: FileInfo)
        requires
            old(self).wf(),
        ensures
            final(self).wf(),
            final(self).spec_has_file(f@.path),
            final(self).spec_contains_file(f@),
            forall|g: FileInfoSpec|
                g.path != f@.path ==> (final(self).spec_contains_file(g) <==> old(
                    self,
                ).spec_contains_file(g)),
            forall|g: FileInfoSpec|
                g.path == f@.path && final(self).spec_contains_file(g) ==> g == f@,
            final(self).block_info == old(self).block_info,
    {
        let ghost pre = self.file_info@;
        let mut k: usize = 0;
        while k < self.file_info.len()
            invariant
                k <= self.file_info@.len(),
                pre == old(self).file_info@,
                self.file_info@ == pre,
                self.block_info == old(self).block_info,
                old(self).wf(),
                forall|i: int| 0 <= i < k ==> pre[i]@.path != f@.path,
            decreases self.file_info@.len() - k,
        {
            if self.file_info[k].path == f.path {
                self.file_info[k] = f;
                proof {
                    lemma_update_contains(pre, k as int, self.file_info@, f@);
                }
                return ;
            }
            k = k + 1;
        }
        self.file_info.push(f);
        proof {
            assert forall|g: FileInfoSpec|
                g.path != f@.path implies (#[trigger] self.spec_contains_file(g)
                <==> seq_contains_file(pre, g)) by {
                if seq_contains_file(pre, g) {
                    let i = choose|i: int| 0 <= i < pre.len() && pre[i]@ == g;
                    assert(self.file_info@[i]@ == g);
                }
                if self.spec_contains_file(g) {
                    let i = choose|i: int|
                        0 <= i < self.file_info@.len() && self.file_info@[i]@ == g;
                    assert(i < pre.len());
                    assert(pre[i]@ == g);
                }
            }
            assert(self.file_info@[pre.len() as int]@ == f@);
        }
    }

    /// Caches one block fingerprint: appends it to the block list of the
    /// file it belongs to, opening a fresh list for a path identifier seen
    /// for the first time. Lists of other files are untouched.
    pub fn insert_block_info(&mut self, block: BlockInfo)
        requires
            old(self).wf(),
        ensures
            final(self).wf(),
            final(self).spec_has_blocks(block@.path_id),
            forall|e: BlockEntrySpec|
                e.path_id != block@.path_id ==> (final(self).spec_contains_blocks(e) <==> old(
                    self,
                ).spec_contains_blocks(e)),
            forall|e: BlockEntrySpec|
                e.path_id == block@.path_id && final(self).spec_contains_blocks(e) ==> {
                    ||| (old(self).spec_contains_blocks(
                        BlockEntrySpec { path_id: e.path_id, blocks: e.blocks.drop_last() },
                    ) && e.blocks.len() > 0 && e.blocks.last() == block@)
                    ||| e.blocks == seq![block@]
                },
            final(self).file_info == old(self).file_info,
    {
        let ghost pre = self.block_info@;
        let mut k: usize = 0;
        while k < self.block_info.len()
            invariant
                k <= self.block_info@.len(),
                pre == old(self).block_info@,
                self.block_info@ == pre,
                self.file_info == old(self).file_info,
                old(self).wf(),
                forall|i: int| 0 <= i < k ==> pre[i]@.path_id != block@.path_id,
            decreases self.block_info@.len() - k,
        {
            if self.block_info[k].path_id == block.path_id {
                proof {
                    assert(self.block_info@[k as int]@.path_id =~= block@.path_id);
                }
                let ghost entry_pre = self.block_info@[k as int]@;
                let mut entry = self.block_info.remove(k);
                entry.blocks.push(block);
                self.block_info.insert(k, entry);
                proof {
                    assert(self.block_info@ =~= pre.update(k as int, self.block_info@[k as int]));
                    assert(self.block_info@[k as int]@.blocks =~= entry_pre.blocks.push(
                        block@,
                    ));
                    lemma_update_contains_blocks(pre, k as int, self.block_info@);
                    assert(self.block_info@[k as int]@.blocks.drop_last() =~= entry_pre.blocks);
                }
                return ;
            }
            k = k + 1;
        }
        let path_id = clone_path_id(&block.path_id);
        let mut blocks: Vec<BlockInfo> = Vec::new();
        blocks.push(block);
        let entry = BlockEntry { path_id, blocks };
        proof {
            assert(entry@.blocks =~= seq![block@]);
        }
        self.block_info.push(entry);
        proof {
            assert forall|e: BlockEntrySpec|
                e.path_id != block@.path_id implies (#[trigger] self.spec_contains_blocks(e)
                <==> seq_contains_entry(pre, e)) by {
                if seq_contains_entry(pre, e) {
                    let i = choose|i: int| 0 <= i < pre.len() && pre[i]@ == e;
                    assert(self.block_info@[i]@ == e);
                }
                if self.spec_contains_blocks(e) {
                    let i = choose|i: int|
                        0 <= i < self.block_info@.len() && self.block_info@[i]@ == e;
                    assert(i < pre.len());
                    assert(pre[i]@ == e);
                }
            }
            assert(self.block_info@[pre.len() as int]@ == entry@);
        }
    }

    /// Position of the file entry carrying the given path, if any.
    fn find_file_index(&self, path: &String) -> (r: Option<usize>)
        ensures
            match r {
                Some(i) => i < self.file_info@.len() && self.file_info@[i as int]@.path == path@
                    && forall|j: int| 0 <= j < i ==> self.file_info@[j]@.path != path@,
                None => !self.spec_has_file(path@),
            },
    {
        let mut k: usize = 0;
        while k < self.file_info.len()
            invariant
                k <= self.file_info@.len(),
                forall|j: int| 0 <= j < k ==> self.file_info@[j]@.path != path@,
            decreases self.file_info@.len() - k,
        {
            if self.file_info[k].path == *path {
                return Some(k);
            }
            k = k + 1;
        }
        None
    }

    /// Position of the block entry carrying the given path identifier, if
    /// any.
    fn find_block_index(&self, path_id: &PathId) -> (r: Option<usize>)
        ensures
            match r {
                Some(i) => i < self.block_info@.len() && self.block_info@[i as int]@.path_id
                    == path_id@ && forall|j: int|
                    0 <= j < i ==> self.block_info@[j]@.path_id != path_id@,
                None => !self.spec_has_blocks(path_id@),
            },
    {
        let mut k: usize = 0;
        while k < self.block_info.len()
            invariant
                k <= self.block_info@.len(),
                forall|j: int| 0 <= j < k ==> self.block_info@[j]@.path_id != path_id@,
            decreases self.block_info@.len() - k,
        {
            if path_id_eq(&self.block_info[k].path_id, path_id) {
                return Some(k);
            }
            k = k + 1;
        }
        None
    }

    /// Removes one file's metadata and its cached blocks: the block list is
    /// found through the file's content-derived path identifier. Every other
    /// file's data is untouched; a path the cache does not hold leaves it
    /// unchanged on that side.
    pub fn delete_file(&mut self, path: &String)
        requires
            old(self).wf(),
        ensures
            final(self).wf(),
            !final(self).spec_has_file(path@),
            !final(self).spec_has_blocks(path_digest_of(encode_utf8(path@))),
            forall|g: FileInfoSpec|
                g.path != path@ ==> (final(self).spec_contains_file(g) <==> old(
                    self,
                ).spec_contains_file(g)),
            forall|e: BlockEntrySpec|
                e.path_id != path_digest_of(encode_utf8(path@))
                    ==> (final(self).spec_contains_blocks(e)
                    <==> old(self).spec_contains_blocks(e)),
    {
        let path_id: PathId = path_digest(path.as_str().as_bytes());
        let path_id = &path_id;
        let ghost pre_files = self.file_info@;
        match self.find_file_index(path) {
            Some(i) => {
                let removed = self.file_info.remove(i);
                proof {
                    lemma_remove_contains(pre_files, i as int, self.file_info@, path@);
                }
            },
            None => {},
        }
        let ghost pre_blocks = self.block_info@;
        match self.find_block_index(path_id) {
            Some(i) => {
                let removed = self.block_info.remove(i);
                proof {
                    lemma_remove_contains_blocks(pre_blocks, i as int, self.block_info@, path_id@);
                }
            },
            None => {},
        }
    }

    /// Renames one cached file: the metadata entry at `from_path` moves to
    /// `to_path`, its contents unchanged. Block lists are keyed by the
    /// content-derived path identifier and are rebuilt by the next indexing
    /// pass, so they are left untouched here. A `from_path` the cache does
    /// not hold leaves the cache unchanged.
    pub fn rename_file(&mut self, from_path: &String, to_path: String)
        requires
            old(self).wf(),
            !old(self).spec_has_file(to_path@),
            from_path@ != to_path@,
        ensures
            final(self).wf(),
            !final(self).spec_has_file(from_path@),
            forall|g: FileInfoSpec|
                g.path != from_path@ && g.path != to_path@
                    ==> (final(self).spec_contains_file(g)
                    <==> old(self).spec_contains_file(g)),
            forall|g: FileInfoSpec|
                g.path == to_path@ && final(self).spec_contains_file(g)
                    ==> old(self).spec_contains_file(
                    FileInfoSpec {
                        path: from_path@,
                        size: g.size,
                        number_blocks: g.number_blocks,
                        block_size: g.block_size,
                        last_modified: g.last_modified,
                    },
                ),
            final(self).block_info == old(self).block_info,
    {
        let ghost pre = self.file_info@;
        match self.find_file_index(from_path) {
            Some(i) => {
                let mut moved = self.file_info.remove(i);
                let ghost mid = self.file_info@;
                proof {
                    lemma_remove_contains(pre, i as int, mid, from_path@);
                }
                let ghost moved_pre = moved@;
                moved.path = to_path;
                let ghost moved_view = moved@;
                self.file_info.push(moved);
                proof {
                    assert(moved_view == FileInfoSpec {
                        path: to_path@,
                        size: moved_pre.size,
                        number_blocks: moved_pre.number_blocks,
                        block_size: moved_pre.block_size,
                        last_modified: moved_pre.last_modified,
                    });
                    assert(self.file_info@[mid.len() as int]@ == moved_view);
                    assert forall|j: int| 0 <= j < mid.len() implies self.file_info@[j]
                        == mid[j] by {}
                    assert forall|g: FileInfoSpec|
                        g.path != to_path@ implies (#[trigger] seq_contains_file(
                        self.file_info@,
                        g,
                    ) <==> seq_contains_file(mid, g)) by {
                        if seq_contains_file(mid, g) {
                            let j = choose|j: int| 0 <= j < mid.len() && mid[j]@ == g;
                            assert(self.file_info@[j]@ == g);
                        }
                        if seq_contains_file(self.file_info@, g) {
                            let j = choose|j: int|
                                0 <= j < self.file_info@.len() && self.file_info@[j]@ == g;
                            assert(j < mid.len());
                            assert(mid[j]@ == g);
                        }
                    }
                    assert forall|g: FileInfoSpec|
                        g.path == to_path@ && #[trigger] seq_contains_file(
                            self.file_info@,
                            g,
                        ) implies g == moved_view by {
                        let j = choose|j: int|
                            0 <= j < self.file_info@.len() && self.file_info@[j]@ == g;
                        if j < mid.len() {
                            assert(mid[j]@.path != to_path@) by {
                                assert(!seq_has_path(pre, to_path@));
                                if j as int + 1 > i as int {
                                    assert(mid[j] == pre[j + 1]);
                                } else {
                                    assert(mid[j] == pre[j]);
                                }
                            }
                            assert(false);
                        }
                    }
                    assert(seq_contains_file(pre, moved_pre));
                }
            },
            None => {},
        }
    }
}

impl Default for FileCache {
    /// An empty cache.
    fn default() -> (r: FileCache)
        ensures
            r.file_info@.len() == 0,
            r.block_info@.len() == 0,
    {
        FileCache { file_info: Vec::new(), block_info: Vec::new() }
    }
}

/// Whether two path identifiers hold the same bytes.
pub fn path_id_eq(a: &PathId, b: &PathId) -> (r: bool)
    ensures
        r == (a@ == b@),
{
    let r = a == b;
    proof {
        if r {
            assert(a@ =~= b@);
        }
        if a@ == b@ {
            assert(vstd::std_specs::cmp::PartialEqSpec::eq_spec(a, b));
        }
    }
    r
}

/// A fresh copy of a path identifier.
pub fn clone_path_id(a: &PathId) -> (r: PathId)
    ensures
        r@ == a@,
{
    let mut r: Vec<u8> = Vec::new();
    let mut k: usize = 0;
    while k < a.len()
        invariant
            k <= a@.len(),
            r@ == a@.take(k as int),
        decreases a@.len() - k,
    {
        r.push(a[k]);
        proof {
            assert(a@.take(k as int).push(a@[k as int]) =~= a@.take(k + 1));
        }
        k = k + 1;
    }
    proof {
        assert(a@.take(a@.len() as int) =~= a@);
    }
    r
}

/// Replacing the entry whose path matches keeps every other path's entries.
proof fn lemma_update_contains(pre: Seq<FileInfo>, k: int, post: Seq<FileInfo>, f: FileInfoSpec)
    requires
        0 <= k < pre.len(),
        pre[k]@.path == f.path,
        post == pre.update(k, post[k]),
        post[k]@ == f,
        post.len() == pre.len(),
        forall|i: int, j: int| 0 <= i < j < pre.len() ==> pre[i]@.path != pre[j]@.path,
    ensures
        forall|i: int, j: int| 0 <= i < j < post.len() ==> post[i]@.path != post[j]@.path,
        seq_contains_file(post, f),
        forall|g: FileInfoSpec|
            g.path != f.path ==> (#[trigger] seq_contains_file(post, g) <==> seq_contains_file(
                pre,
                g,
            )),
        forall|g: FileInfoSpec|
            g.path == f.path && #[trigger] seq_contains_file(post, g) ==> g == f,
{
    assert(post[k]@ == f);
    assert forall|g: FileInfoSpec|
        g.path != f.path implies (#[trigger] seq_contains_file(post, g) <==> seq_contains_file(
        pre,
        g,
    )) by {
        if seq_contains_file(post, g) {
            let i = choose|i: int| 0 <= i < post.len() && post[i]@ == g;
            assert(i != k);
            assert(pre[i]@ == g);
        }
        if seq_contains_file(pre, g) {
            let i = choose|i: int| 0 <= i < pre.len() && pre[i]@ == g;
            assert(i != k);
            assert(post[i]@ == g);
        }
    }
    assert forall|g: FileInfoSpec|
        g.path == f.path && #[trigger] seq_contains_file(post, g) implies g == f by {
        let i = choose|i: int| 0 <= i < post.len() && post[i]@ == g;
        if i != k {
            assert(pre[i]@.path == f.path);
            assert(pre[k]@.path == f.path);
            assert(false);
        }
    }
}

/// Extending the block list of the entry whose identifier matches keeps
/// every other identifier's entries, and keys stay unique.
proof fn lemma_update_contains_blocks(pre: Seq<BlockEntry>, k: int, post: Seq<BlockEntry>)
    requires
        0 <= k < pre.len(),
        post.len() == pre.len(),
        post[k]@.path_id == pre[k]@.path_id,
        forall|i: int| 0 <= i < pre.len() && i != k ==> post[i] == pre[i],
        forall|i: int, j: int| 0 <= i < j < pre.len() ==> pre[i]@.path_id != pre[j]@.path_id,
    ensures
        forall|i: int, j: int| 0 <= i < j < post.len() ==> post[i]@.path_id != post[j]@.path_id,
        forall|e: BlockEntrySpec|
            e.path_id != pre[k]@.path_id ==> (#[trigger] seq_contains_entry(post, e)
                <==> seq_contains_entry(pre, e)),
{
    assert forall|e: BlockEntrySpec|
        e.path_id != pre[k]@.path_id implies (#[trigger] seq_contains_entry(post, e)
        <==> seq_contains_entry(pre, e)) by {
        if seq_contains_entry(post, e) {
            let i = choose|i: int| 0 <= i < post.len() && post[i]@ == e;
            assert(i != k);
            assert(pre[i]@ == e);
        }
        if seq_contains_entry(pre, e) {
            let i = choose|i: int| 0 <= i < pre.len() && pre[i]@ == e;
            assert(i != k);
            assert(post[i]@ == e);
        }
    }
}

/// Removing the entry whose path matches keeps every other path's entries,
/// and no entry with that path remains.
proof fn lemma_remove_contains(
    pre: Seq<FileInfo>,
    k: int,
    post: Seq<FileInfo>,
    path: Seq<char>,
)
    requires
        0 <= k < pre.len(),
        pre[k]@.path == path,
        post == pre.remove(k),
        forall|i: int| 0 <= i < k ==> pre[i]@.path != path,
        forall|i: int, j: int| 0 <= i < j < pre.len() ==> pre[i]@.path != pre[j]@.path,
    ensures
        forall|i: int, j: int| 0 <= i < j < post.len() ==> post[i]@.path != post[j]@.path,
        !(exists|i: int| 0 <= i < post.len() && post[i]@.path == path),
        forall|g: FileInfoSpec|
            g.path != path ==> (#[trigger] seq_contains_file(post, g) <==> seq_contains_file(
                pre,
                g,
            )),
{
    assert forall|i: int| 0 <= i < post.len() implies post[i]@.path != path by {
        if i < k {
            assert(post[i] == pre[i]);
        } else {
            assert(post[i] == pre[i + 1]);
        }
    }
    assert forall|g: FileInfoSpec|
        g.path != path implies (#[trigger] seq_contains_file(post, g) <==> seq_contains_file(
        pre,
        g,
    )) by {
        if seq_contains_file(post, g) {
            let i = choose|i: int| 0 <= i < post.len() && post[i]@ == g;
            if i < k {
                assert(pre[i]@ == g);
            } else {
                assert(pre[i + 1]@ == g);
            }
        }
        if seq_contains_file(pre, g) {
            let i = choose|i: int| 0 <= i < pre.len() && pre[i]@ == g;
            assert(i != k);
            if i < k {
                assert(post[i]@ == g);
            } else {
                assert(post[i - 1]@ == g);
            }
        }
    }
}

/// Removing the entry whose identifier matches keeps every other
/// identifier's entries, and no entry with that identifier remains.
proof fn lemma_remove_contains_blocks(
    pre: Seq<BlockEntry>,
    k: int,
    post: Seq<BlockEntry>,
    id: Seq<u8>,
)
    requires
        0 <= k < pre.len(),
        pre[k]@.path_id == id,
        post == pre.remove(k),
        forall|i: int| 0 <= i < k ==> pre[i]@.path_id != id,
        forall|i: int, j: int| 0 <= i < j < pre.len() ==> pre[i]@.path_id != pre[j]@.path_id,
    ensures
        forall|i: int, j: int| 0 <= i < j < post.len() ==> post[i]@.path_id != post[j]@.path_id,
        !(exists|i: int| 0 <= i < post.len() && post[i]@.path_id == id),
        forall|e: BlockEntrySpec|
            e.path_id != id ==> (#[trigger] seq_contains_entry(post, e) <==> seq_contains_entry(
                pre,
                e,
            )),
{
    assert forall|i: int| 0 <= i < post.len() implies post[i]@.path_id != id by {
        if i < k {
            assert(post[i] == pre[i]);
        } else {
            assert(post[i] == pre[i + 1]);
        }
    }
    assert forall|e: BlockEntrySpec|
        e.path_id != id implies (#[trigger] seq_contains_entry(post, e) <==> seq_contains_entry(
        pre,
        e,
    )) by {
        if seq_contains_entry(post, e) {
            let i = choose|i: int| 0 <= i < post.len() && post[i]@ == e;
            if i < k {
                assert(pre[i]@ == e);
            } else {
                assert(pre[i + 1]@ == e);
            }
        }
        if seq_contains_entry(pre, e) {
            let i = choose|i: int| 0 <= i < pre.len() && pre[i]@ == e;
            assert(i != k);
            if i < k {
                assert(post[i]@ == e);
            } else {
                assert(post[i - 1]@ == e);
            }
        }
    }
}

} // verus!
