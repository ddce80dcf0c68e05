//! Bidirectional lookup between a content-derived path identifier and the
//! path it was derived from, owned by the session that needs it.

use crate::file_cache::path_id_eq;
use crate::hashes::{path_digest, path_digest_of};
use crate::messages::block_info::PathId;
use vstd::prelude::*;
use vstd::utf8::encode_utf8;

verus! {

/// One identifier/path pair.
pub struct PathIdEntry {
    pub id: PathId,
    pub path: String,
}

/// Mathematical value of a [`PathIdEntry`].
pub struct PathIdEntrySpec {
    pub id: Seq<u8>,
    pub path: Seq<char>,
}

impl View for PathIdEntry {
    type V = PathIdEntrySpec;

    open spec fn view(&self) -> PathIdEntrySpec {
        PathIdEntrySpec { id: self.id@, path: self.path@ }
    }
}

/// Whether some entry in the sequence has the given value.
pub open spec fn seq_contains_pair(s: Seq<PathIdEntry>, e: PathIdEntrySpec) -> bool {
    exists|i: int| 0 <= i < s.len() && s[i]@ == e
}

/// The lookup table: identifiers are unique.
pub struct PathIdCache {
    pub entries: Vec<PathIdEntry>,
}

impl PathIdCache {
    /// Identifiers are unique keys.
    pub open spec fn wf(self) -> bool {
        forall|i: int, j: int|
            0 <= i < j < self.entries@.len() ==> self.entries@[i]@.id != self.entries@[j]@.id
    }

    /// Whether the table knows the given identifier.
    pub open spec fn spec_has_id(self, id: Seq<u8>) -> bool {
        exists|i: int| 0 <= i < self.entries@.len() && self.entries@[i]@.id == id
    }

    /// Records the path under its own identifier, replacing what that
    /// identifier previously mapped to. Every other identifier's entry is
    /// untouched.
    pub fn add_path(&mut self, path: String)
        requires
            old(self).wf(),
        ensures
            final(self).wf(),
            final(self).spec_has_id(path_digest_of(encode_utf8(path@))),
            seq_contains_pair(
                final(self).entries@,
                PathIdEntrySpec { id: path_digest_of(encode_utf8(path@)), path: path@ },
            ),
            forall|e: PathIdEntrySpec|
                e.id != path_digest_of(encode_utf8(path@)) ==> (#[trigger] seq_contains_pair(
                    final(self).entries@,
                    e,
                ) <==> seq_contains_pair(old(self).entries@, e)),
    {
        let id = PathIdCache::calculate_path_id(path.as_str());
        let entry = PathIdEntry { id, path };
        let ghost entry_view = entry@;
        let ghost pre = self.entries@;
        let mut k: usize = 0;
        while k < self.entries.len()
            invariant
                k <= self.entries@.len(),
                pre == old(self).entries@,
                self.entries@ == pre,
                old(self).wf(),
                entry@ == entry_view,
                entry_view.path == path@,
                entry_view.id == path_digest_of(encode_utf8(path@)),
                forall|i: int| 0 <= i < k ==> pre[i]@.id != entry_view.id,
            decreases self.entries@.len() - k,
        {
            if path_id_eq(&self.entries[k].id, &entry.id) {
                self.entries[k] = entry;
                proof {
                    assert(self.entries@[k as int]@ == entry_view);
                    assert(seq_contains_pair(self.entries@, entry_view));
                    lemma_pair_update(pre, k as int, self.entries@);
                }
                return ;
            }
            k = k + 1;
        }
        self.entries.push(entry);
        proof {
            assert(self.entries@[pre.len() as int]@ == entry@);
            assert forall|e: PathIdEntrySpec|
                e.id != entry@.id implies (#[trigger] seq_contains_pair(self.entries@, e)
                <==> seq_contains_pair(pre, e)) by {
                if seq_contains_pair(pre, e) {
                    let i = choose|i: int| 0 <= i < pre.len() && pre[i]@ == e;
                    assert(self.entries@[i]@ == e);
                }
                if seq_contains_pair(self.entries@, e) {
                    let i = choose|i: int|
                        0 <= i < self.entries@.len() && self.entries@[i]@ == e;
                    assert(i < pre.len());
                    assert(pre[i]@ == e);
                }
            }
        }
    }

    /// Looks the path up by its identifier. Returns it exactly when the
    /// table knows the identifier.
    pub fn get_path(&self, path_id: &PathId) -> (r: Option<&String>)
        ensures
            match r {
                Some(p) => self.spec_has_id(path_id@) && seq_contains_pair(
                    self.entries@,
                    PathIdEntrySpec { id: path_id@, path: p@ },
                ),
                None => !self.spec_has_id(path_id@),
            },
    {
        let mut k: usize = 0;
        while k < self.entries.len()
            invariant
                k <= self.entries@.len(),
                forall|i: int| 0 <= i < k ==> self.entries@[i]@.id != path_id@,
            decreases self.entries@.len() - k,
        {
            if path_id_eq(&self.entries[k].id, path_id) {
                return Some(&self.entries[k].path);
            }
            k = k + 1;
        }
        None
    }

    /// The content-derived identifier of a path: the 32-byte path
    /// fingerprint of its UTF-8 bytes.
    pub fn calculate_path_id(path: &str) -> (r: PathId)
        ensures
            r@ == path_digest_of(encode_utf8(path@)),
            r@.len() == 32,
    {
        path_digest(path.as_bytes())
    }
}

impl Default for PathIdCache {
    /// An empty table.
    fn default() -> (r: PathIdCache)
        ensures
            r.entries@.len() == 0,
    {
        PathIdCache { entries: Vec::new() }
    }
}

/// Replacing the entry whose identifier matches keeps every other
/// identifier's entries, and keys stay unique.
proof fn lemma_pair_update(pre: Seq<PathIdEntry>, k: int, post: Seq<PathIdEntry>)
    requires
        0 <= k < pre.len(),
        post.len() == pre.len(),
        post == pre.update(k, post[k]),
        post[k]@.id == pre[k]@.id,
        forall|i: int, j: int| 0 <= i < j < pre.len() ==> pre[i]@.id != pre[j]@.id,
    ensures
        forall|i: int, j: int| 0 <= i < j < post.len() ==> post[i]@.id != post[j]@.id,
        forall|e: PathIdEntrySpec|
            e.id != pre[k]@.id ==> (#[trigger] seq_contains_pair(post, e) <==> seq_contains_pair(
                pre,
                e,
            )),
{
    assert forall|e: PathIdEntrySpec|
        e.id != pre[k]@.id implies (#[trigger] seq_contains_pair(post, e) <==> seq_contains_pair(
        pre,
        e,
    )) by {
        if seq_contains_pair(post, e) {
            let i = choose|i: int| 0 <= i < post.len() && post[i]@ == e;
            assert(i != k);
            assert(pre[i]@ == e);
        }
        if seq_contains_pair(pre, e) {
            let i = choose|i: int| 0 <= i < pre.len() && pre[i]@ == e;
            assert(i != k);
            assert(post[i]@ == e);
        }
    }
}

} // verus!
