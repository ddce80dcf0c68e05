use folder_sync::policy::{block_count, block_size_policy};

const MIB: u64 = 1024 * 1024;
const GIB: u64 = 1024 * 1024 * 1024;

#[test]
fn tier_boundaries_select_the_documented_tier() {
    // Just below, at, and just above each threshold.
    assert_eq!(block_size_policy(0), 128 * 1024);
    assert_eq!(block_size_policy(250 * MIB - 1), 128 * 1024);
    assert_eq!(block_size_policy(250 * MIB), 256 * 1024);
    assert_eq!(block_size_policy(250 * MIB + 1), 256 * 1024);
    assert_eq!(block_size_policy(500 * MIB - 1), 256 * 1024);
    assert_eq!(block_size_policy(500 * MIB), 512 * 1024);
    assert_eq!(block_size_policy(500 * MIB + 1), 512 * 1024);
    assert_eq!(block_size_policy(GIB - 1), 512 * 1024);
    assert_eq!(block_size_policy(GIB), 1024 * 1024);
    assert_eq!(block_size_policy(GIB + 1), 1024 * 1024);
    assert_eq!(block_size_policy(2 * GIB - 1), 1024 * 1024);
    assert_eq!(block_size_policy(2 * GIB), 2 * 1024 * 1024);
    assert_eq!(block_size_policy(4 * GIB - 1), 2 * 1024 * 1024);
    assert_eq!(block_size_policy(4 * GIB), 4 * 1024 * 1024);
    assert_eq!(block_size_policy(8 * GIB - 1), 4 * 1024 * 1024);
    assert_eq!(block_size_policy(8 * GIB), 8 * 1024 * 1024);
    assert_eq!(block_size_policy(16 * GIB - 1), 8 * 1024 * 1024);
    assert_eq!(block_size_policy(16 * GIB), 16 * 1024 * 1024);
    assert_eq!(block_size_policy(u64::MAX), 16 * 1024 * 1024);
}

#[test]
fn ten_mebibyte_file_splits_into_eighty_full_blocks() {
    let size = 10 * MIB;
    let block_size = block_size_policy(size);
    assert_eq!(block_size, 128 * 1024);
    assert_eq!(block_count(size, block_size), 80);
    // Evenly divisible: the last block is a full one.
    assert_eq!(size % block_size as u64, 0);
}

#[test]
fn ten_mebibyte_plus_one_file_has_a_one_byte_last_block() {
    let size = 10 * MIB + 1;
    let block_size = block_size_policy(size);
    assert_eq!(block_size, 128 * 1024);
    assert_eq!(block_count(size, block_size), 81);
    assert_eq!(size % block_size as u64, 1);
}

#[test]
fn block_count_is_exact_ceiling() {
    assert_eq!(block_count(0, 128 * 1024), 0);
    assert_eq!(block_count(1, 128 * 1024), 1);
    assert_eq!(block_count(128 * 1024, 128 * 1024), 1);
    assert_eq!(block_count(128 * 1024 + 1, 128 * 1024), 2);
    assert_eq!(block_count(u64::MAX, 1), u64::MAX);
}
