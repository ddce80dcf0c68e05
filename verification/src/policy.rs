//! Block-size policy: maps a file's total size to the block size used when
//! splitting the file into content-addressed blocks.
//!
//! Both peers must compute the same block size for the same file size, so the
//! tier table below is part of the wire-compatibility contract.

use vstd::prelude::*;

verus! {

/// Block-size tier table, ascending: files below 250 MiB use 128 KiB blocks,
/// below 500 MiB use 256 KiB, below 1 GiB use 512 KiB, below 2 GiB use 1 MiB,
/// below 4 GiB use 2 MiB, below 8 GiB use 4 MiB, below 16 GiB use 8 MiB, and
/// anything larger uses 16 MiB.
pub open spec fn spec_block_size_policy(file_size: u64) -> u32 {
    if file_size < 250 * 1024 * 1024 {
        131_072u32
    } else if file_size < 500 * 1024 * 1024 {
        262_144u32
    } else if file_size < 1 * 1024 * 1024 * 1024 {
        524_288u32
    } else if file_size < 2 * 1024 * 1024 * 1024 {
        1_048_576u32
    } else if file_size < 4 * 1024 * 1024 * 1024 {
        2_097_152u32
    } else if file_size < 8 * 1024 * 1024 * 1024 {
        4_194_304u32
    } else if file_size < 16 * 1024 * 1024 * 1024 {
        8_388_608u32
    } else {
        16_777_216u32
    }
}

/// Picks the block size for a file of the given total size, following the
/// fixed power-of-two tier table. Pure and deterministic: every file size
/// selects exactly one tier.
pub fn block_size_policy(file_size: u64) -> (block_size: u32)
    ensures
        block_size == spec_block_size_policy(file_size),
        block_size > 0,
{
    if file_size < 250 * 1024 * 1024 {
        131_072u32
    } else if file_size < 500 * 1024 * 1024 {
        262_144u32
    } else if file_size < 1 * 1024 * 1024 * 1024 {
        524_288u32
    } else if file_size < 2 * 1024 * 1024 * 1024 {
        1_048_576u32
    } else if file_size < 4 * 1024 * 1024 * 1024 {
        2_097_152u32
    } else if file_size < 8 * 1024 * 1024 * 1024 {
        4_194_304u32
    } else if file_size < 16 * 1024 * 1024 * 1024 {
        8_388_608u32
    } else {
        16_777_216u32
    }
}

/// Number of blocks a file of `file_size` bytes splits into: the exact
/// ceiling of `file_size / block_size`. An empty file has no blocks.
pub open spec fn spec_block_count(file_size: u64, block_size: u32) -> int
    recommends
        block_size > 0,
{
    if file_size as int % block_size as int == 0 {
        file_size as int / block_size as int
    } else {
        file_size as int / block_size as int + 1
    }
}

/// Computes `ceil(file_size / block_size)`, the number of blocks the file
/// splits into under the policy.
pub fn block_count(file_size: u64, block_size: u32) -> (count: u64)
    requires
        block_size > 0,
    ensures
        count == spec_block_count(file_size, block_size),
{
    let whole: u64 = file_size / (block_size as u64);
    if file_size % (block_size as u64) == 0 {
        whole
    } else {
        proof {
            vstd::arithmetic::div_mod::lemma_fundamental_div_mod(
                file_size as int,
                block_size as int,
            );
            vstd::arithmetic::mul::lemma_mul_inequality(
                1,
                block_size as int,
                whole as int,
            );
        }
        whole + 1
    }
}

} // verus!
