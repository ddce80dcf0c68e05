//! One file's index entry: its path, size, block size and the ordered
//! sequence of content-addressed blocks that exactly covers its contents.

use crate::hashes::content_digest_of;
use crate::index::block_info::BlockInfo;
use crate::policy::{block_size_policy, spec_block_count, spec_block_size_policy};
use vstd::math::min;
use vstd::prelude::*;
use vstd::slice::slice_subrange;

verus! {

/// Index entry for one regular file. Immutable once built: a changed file
/// produces a fresh entry in a fresh snapshot.
#[derive(Debug, PartialEq, Eq, Clone)]
pub struct FileInfo {
    pub path: String,
    pub size: u64,
    pub block_size: u32,
    pub blocks: Vec<BlockInfo>,
}

/// Mathematical value of a [`FileInfo`].
pub struct FileInfoSpec {
    pub path: Seq<char>,
    pub size: u64,
    pub block_size: u32,
    pub blocks: Seq<BlockInfo>,
}

impl View for FileInfo {
    type V = FileInfoSpec;

    open spec fn view(&self) -> FileInfoSpec {
        FileInfoSpec {
            path: self.path@,
            size: self.size,
            block_size: self.block_size,
            blocks: self.blocks@,
        }
    }
}

impl FileInfoSpec {
    /// Block-structure invariant: the block count is exactly
    /// `ceil(size / block_size)`, block `i` starts at offset
    /// `i * block_size`, and every block is full-sized except that the last
    /// one holds just the remaining bytes. Together these say the blocks
    /// partition `[0, size)` in order, with no gaps or overlaps.
    pub open spec fn wf(self) -> bool {
        &&& self.block_size > 0
        &&& self.blocks.len() == spec_block_count(self.size, self.block_size)
        &&& forall|i: int|
            0 <= i < self.blocks.len() ==> (#[trigger] self.blocks[i]).offset == i
                * self.block_size
        &&& forall|i: int|
            0 <= i < self.blocks.len() ==> (#[trigger] self.blocks[i]).block_size == min(
                self.block_size as int,
                self.size - i * self.block_size,
            )
    }
}

impl FileInfo {
    /// Assembles an entry from its parts.
    pub fn new(path: String, size: u64, block_size: u32, blocks: Vec<BlockInfo>) -> (r: FileInfo)
        ensures
            r@ == (FileInfoSpec { path: path@, size, block_size, blocks: blocks@ }),
    {
        FileInfo { path, size, block_size, blocks }
    }

    /// The file's canonical path.
    pub fn path(&self) -> (r: &str)
        ensures
            r@ == self@.path,
    {
        self.path.as_str()
    }

    /// The file's total size in bytes.
    pub fn size(&self) -> (r: u64)
        ensures
            r == self@.size,
    {
        self.size
    }

    /// The block size the policy chose for this file.
    pub fn block_size(&self) -> (r: u32)
        ensures
            r == self@.block_size,
    {
        self.block_size
    }

    /// The file's blocks, in strictly increasing offset order.
    pub fn blocks(&self) -> (r: &Vec<BlockInfo>)
        ensures
            r@ == self@.blocks,
    {
        &self.blocks
    }

    /// Indexes one file from its full contents: picks the block size from
    /// the policy, splits the contents into consecutive blocks (short final
    /// block permitted) and fingerprints each block's exact bytes. The
    /// result is well formed, and every block's hash is the content digest
    /// of precisely the bytes the block spans.
    pub fn from_contents(path: String, data: &[u8]) -> (r: FileInfo)
        ensures
            r@.wf(),
            r@.path == path@,
            r@.size == data@.len(),
            r@.block_size == spec_block_size_policy(data@.len() as u64),
            forall|i: int|
                0 <= i < r@.blocks.len() ==> (#[trigger] r@.blocks[i]).hash == content_digest_of(
                    data@.subrange(
                        r@.blocks[i].offset as int,
                        r@.blocks[i].offset + r@.blocks[i].block_size,
                    ),
                ),
    {
        let size = data.len() as u64;
        let block_size = block_size_policy(size);
        let bs = block_size as usize;
        let mut blocks: Vec<BlockInfo> = Vec::new();
        let mut offset: usize = 0;
        while offset < data.len()
            invariant
                bs == block_size,
                block_size == spec_block_size_policy(data@.len() as u64),
                block_size > 0,
                offset <= data@.len(),
                offset == min(blocks@.len() * block_size as int, data@.len() as int),
                forall|i: int| 0 <= i < blocks@.len() ==> #[trigger] (i * block_size) < data@.len(),
                forall|i: int|
                    0 <= i < blocks@.len() ==> (#[trigger] blocks@[i]).offset == i * block_size,
                forall|i: int|
                    0 <= i < blocks@.len() ==> (#[trigger] blocks@[i]).block_size == min(
                        block_size as int,
                        data@.len() - i * block_size,
                    ),
                forall|i: int|
                    0 <= i < blocks@.len() ==> (#[trigger] blocks@[i]).hash == content_digest_of(
                        data@.subrange(
                            blocks@[i].offset as int,
                            blocks@[i].offset + blocks@[i].block_size,
                        ),
                    ),
            decreases data@.len() - offset,
        {
            let ghost n = blocks@.len() as int;
            let ghost len = data@.len() as int;
            proof {
                assert((n + 1) * block_size == n * block_size + block_size) by (nonlinear_arith);
            }
            let remaining = data.len() - offset;
            let this_block = if remaining >= bs {
                bs
            } else {
                remaining
            };
            let chunk = slice_subrange(data, offset, offset + this_block);
            let block = BlockInfo::with_buffer(offset as u64, chunk);
            blocks.push(block);
            offset = offset + this_block;
        }
        proof {
            lemma_full_cover_count(data@.len() as int, block_size as int, blocks@.len() as int);
        }
        FileInfo { path, size, block_size, blocks }
    }
}

/// A sequence of `n` blocks, each started strictly inside the file and the
/// file fully consumed, holds exactly `ceil(size / bs)` blocks.
proof fn lemma_full_cover_count(size: int, bs: int, n: int)
    requires
        0 < bs,
        0 <= size,
        0 <= n,
        min(n * bs, size) == size,
        forall|i: int| 0 <= i < n ==> #[trigger] (i * bs) < size,
    ensures
        size <= u64::MAX && bs <= u32::MAX ==> n == spec_block_count(size as u64, bs as u32),
{
    if size <= u64::MAX && bs <= u32::MAX {
        let q = size / bs;
        let r = size % bs;
        vstd::arithmetic::div_mod::lemma_fundamental_div_mod(size, bs);
        if n == 0 {
            assert(size == 0);
            assert(q == 0 && r == 0) by (nonlinear_arith)
                requires size == 0 && bs > 0 && size == q * bs + r && 0 <= r < bs;
        } else {
            assert((n - 1) * bs < size);
            assert(size <= n * bs);
            if r == 0 {
                assert(n == q) by (nonlinear_arith)
                    requires
                        (n - 1) * bs < size,
                        size <= n * bs,
                        size == q * bs,
                        bs > 0,
                        n >= 1,
                        q >= 0,
                ;
            } else {
                assert(n == q + 1) by (nonlinear_arith)
                    requires
                        (n - 1) * bs < size,
                        size <= n * bs,
                        size == q * bs + r,
                        0 < r < bs,
                        bs > 0,
                        n >= 1,
                        q >= 0,
                ;
            }
        }
    }
}

/// Total number of bytes the given blocks span.
pub open spec fn sum_block_sizes(blocks: Seq<BlockInfo>) -> int
    decreases blocks.len(),
{
    if blocks.len() == 0 {
        0
    } else {
        sum_block_sizes(blocks.drop_last()) + blocks.last().block_size
    }
}

/// For every index `k` below the block count, block `k` starts strictly
/// inside the file.
proof fn lemma_block_starts_inside(size: int, bs: int, k: int, count: int)
    requires
        0 < bs,
        0 <= size,
        0 <= k < count,
        count == if size % bs == 0 {
            size / bs
        } else {
            size / bs + 1
        },
    ensures
        k * bs < size,
{
    let q = size / bs;
    let r = size % bs;
    vstd::arithmetic::div_mod::lemma_fundamental_div_mod(size, bs);
    if r == 0 {
        assert(k * bs < size) by (nonlinear_arith)
            requires 0 <= k < q && size == q * bs && bs > 0;
    } else {
        assert(k * bs < size) by (nonlinear_arith)
            requires 0 <= k <= q && size == q * bs + r && 0 < r < bs && bs > 0;
    }
}

/// The blocks of a well-formed entry span exactly `min(n * bs, size)` bytes
/// over their first `n` blocks.
proof fn lemma_sum_prefix(f: FileInfoSpec, n: int)
    requires
        f.wf(),
        0 <= n <= f.blocks.len(),
    ensures
        sum_block_sizes(f.blocks.take(n)) == min(n * f.block_size as int, f.size as int),
    decreases n,
{
    let bs = f.block_size as int;
    let size = f.size as int;
    if n == 0 {
        assert(f.blocks.take(0).len() == 0);
    } else {
        lemma_sum_prefix(f, n - 1);
        lemma_block_starts_inside(size, bs, n - 1, f.blocks.len() as int);
        assert(f.blocks.take(n).drop_last() =~= f.blocks.take(n - 1));
        assert(f.blocks.take(n).last() == f.blocks[n - 1]);
        assert((n - 1) * bs < size);
        assert(min((n - 1) * bs, size) == (n - 1) * bs);
        assert(n * bs == (n - 1) * bs + bs) by (nonlinear_arith);
        assert(sum_block_sizes(f.blocks.take(n)) == (n - 1) * bs + min(bs, size - (n - 1) * bs));
    }
}

/// Block coverage law for well-formed entries: the blocks' sizes sum to
/// exactly the file size; the first block starts at offset zero; each block
/// ends exactly where the next begins, so offsets are strictly increasing
/// with no gaps or overlaps; the last block ends exactly at the file size;
/// and the last block's size is `size % block_size` unless that remainder
/// is zero, in which case it is a full `block_size`.
pub proof fn lemma_blocks_cover_file(f: FileInfoSpec)
    requires
        f.wf(),
    ensures
        sum_block_sizes(f.blocks) == f.size,
        f.blocks.len() > 0 ==> f.blocks[0].offset == 0,
        forall|i: int|
            0 <= i < f.blocks.len() - 1 ==> (#[trigger] f.blocks[i]).offset + f.blocks[
                i
            ].block_size == f.blocks[i + 1].offset,
        forall|i: int, j: int|
            0 <= i < j < f.blocks.len() ==> f.blocks[i].offset < f.blocks[j].offset,
        f.blocks.len() > 0 ==> f.blocks.last().offset + f.blocks.last().block_size == f.size,
        f.blocks.len() > 0 ==> f.blocks.last().block_size as int == (
        if f.size as int % f.block_size as int == 0 {
            f.block_size as int
        } else {
            f.size as int % f.block_size as int
        }),
{
    let bs = f.block_size as int;
    let size = f.size as int;
    let n = f.blocks.len() as int;
    let q = size / bs;
    let r = size % bs;
    vstd::arithmetic::div_mod::lemma_fundamental_div_mod(size, bs);

    // The sum of all block sizes is min(n * bs, size) == size.
    lemma_sum_prefix(f, n);
    assert(f.blocks.take(n) =~= f.blocks);
    if r == 0 {
        assert(size <= n * bs) by (nonlinear_arith)
            requires n == q && size == q * bs && bs > 0;
    } else {
        assert(size <= n * bs) by (nonlinear_arith)
            requires n == q + 1 && size == q * bs + r && 0 < r < bs && bs > 0;
    }

    // Contiguity: block i ends exactly where block i + 1 begins.
    assert forall|i: int| 0 <= i < n - 1 implies (#[trigger] f.blocks[i]).offset + f.blocks[
        i
    ].block_size == f.blocks[i + 1].offset by {
        lemma_block_starts_inside(size, bs, i + 1, n);
        assert((i + 1) * bs == i * bs + bs) by (nonlinear_arith);
    }

    // Offsets strictly increase.
    assert forall|i: int, j: int| 0 <= i < j < n implies f.blocks[i].offset < f.blocks[
        j
    ].offset by {
        assert(i * bs < j * bs) by (nonlinear_arith)
            requires i < j && bs > 0;
    }

    // The last block ends exactly at the file size, and its size follows
    // the remainder rule.
    if n > 0 {
        lemma_block_starts_inside(size, bs, n - 1, n);
        assert(f.blocks.last() == f.blocks[n - 1]);
        if r == 0 {
            assert(size - (n - 1) * bs == bs) by (nonlinear_arith)
                requires n == q && size == q * bs && bs > 0;
        } else {
            assert(size - (n - 1) * bs == r) by (nonlinear_arith)
                requires n == q + 1 && size == q * bs + r && 0 < r < bs;
        }
    }
}

} // verus!
