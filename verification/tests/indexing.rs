use folder_sync::index::block_info::BlockInfo;
use folder_sync::messages::block_info::block_messages;
use folder_sync::index::builder::IndexBuilder;
use folder_sync::index::file_info::FileInfo;
use folder_sync::index::folder_index::FolderIndex;

// MD5 of the five bytes `hello`, read as one little-endian integer.
fn md5_of_hello() -> u128 {
    u128::from_le_bytes([
        0x5d, 0x41, 0x40, 0x2a, 0xbc, 0x4b, 0x2a, 0x76, 0xb9, 0x71, 0x9d, 0x91, 0x10, 0x17,
        0xc5, 0x92,
    ])
}

#[test]
fn block_hash_is_the_md5_digest_of_the_buffer() {
    let block = BlockInfo::with_buffer(0, b"hello");
    assert_eq!(block.offset(), 0);
    assert_eq!(block.block_size(), 5);
    assert_eq!(block.hash(), md5_of_hello());
}

#[test]
fn small_file_indexes_to_one_block() {
    let entry = FileInfo::from_contents("greeting.txt".to_string(), b"hello");
    assert_eq!(entry.path(), "greeting.txt");
    assert_eq!(entry.size(), 5);
    assert_eq!(entry.block_size(), 128 * 1024);
    assert_eq!(entry.blocks().len(), 1);
    assert_eq!(entry.blocks()[0], BlockInfo::new(0, 5, md5_of_hello()));
}

#[test]
fn empty_file_indexes_to_no_blocks() {
    let entry = FileInfo::from_contents("empty".to_string(), b"");
    assert_eq!(entry.size(), 0);
    assert_eq!(entry.blocks().len(), 0);
}

#[test]
fn blocks_cover_the_file_exactly() {
    // Two full blocks and a one-byte final block.
    let data = vec![7u8; 2 * 128 * 1024 + 1];
    let entry = FileInfo::from_contents("data.bin".to_string(), &data);
    assert_eq!(entry.blocks().len(), 3);

    let mut total: u64 = 0;
    let mut expected_offset: u64 = 0;
    for block in entry.blocks() {
        assert_eq!(block.offset(), expected_offset);
        expected_offset += block.block_size() as u64;
        total += block.block_size() as u64;
    }
    assert_eq!(total, entry.size());
    assert_eq!(entry.blocks()[0].block_size(), 128 * 1024);
    assert_eq!(entry.blocks()[1].block_size(), 128 * 1024);
    assert_eq!(entry.blocks()[2].block_size(), 1);

    // Equal content gives equal fingerprints; the short block differs.
    assert_eq!(entry.blocks()[0].hash(), entry.blocks()[1].hash());
    assert_ne!(entry.blocks()[0].hash(), entry.blocks()[2].hash());
}

#[test]
fn ten_mebibyte_file_has_eighty_blocks_and_a_full_last_block() {
    let data = vec![0u8; 10 * 1024 * 1024];
    let entry = FileInfo::from_contents("ten".to_string(), &data);
    assert_eq!(entry.blocks().len(), 80);
    assert_eq!(entry.blocks()[79].block_size(), 128 * 1024);

    let longer = vec![0u8; 10 * 1024 * 1024 + 1];
    let entry = FileInfo::from_contents("ten+1".to_string(), &longer);
    assert_eq!(entry.blocks().len(), 81);
    assert_eq!(entry.blocks()[80].block_size(), 1);
}

#[test]
fn snapshot_holds_exactly_the_successful_entries() {
    let a = FileInfo::from_contents("a".to_string(), b"aa");
    let b = FileInfo::from_contents("b".to_string(), b"bb");
    let c = FileInfo::from_contents("c".to_string(), b"cc");
    let results = vec![Some(a), None, Some(b), Some(c), None];
    let index = FolderIndex::from_results(results);
    assert_eq!(index.len(), 3);
    assert!(index.find(&"a".to_string()).is_some());
    assert!(index.find(&"b".to_string()).is_some());
    assert!(index.find(&"c".to_string()).is_some());
    assert!(index.find(&"d".to_string()).is_none());
}

#[test]
fn snapshot_entries_do_not_depend_on_walk_order() {
    let one = || FileInfo::from_contents("one".to_string(), b"1");
    let two = || FileInfo::from_contents("two".to_string(), b"22");
    let forward = FolderIndex::from_results(vec![Some(one()), Some(two()), None]);
    let backward = FolderIndex::from_results(vec![None, Some(two()), Some(one())]);
    assert_eq!(forward.len(), backward.len());
    assert_eq!(
        forward.find(&"one".to_string()).unwrap(),
        backward.find(&"one".to_string()).unwrap()
    );
    assert_eq!(
        forward.find(&"two".to_string()).unwrap(),
        backward.find(&"two".to_string()).unwrap()
    );
}

#[test]
fn builder_remembers_its_root() {
    let builder = IndexBuilder::from_path("/srv/data".to_string());
    assert_eq!(builder.path(), "/srv/data");
}

#[test]
fn block_messages_keep_strictly_increasing_offsets() {
    let data = vec![9u8; 128 * 1024 + 7];
    let entry = FileInfo::from_contents("big".to_string(), &data);
    let path_id = vec![1u8; 32];
    let messages = block_messages(&path_id, &entry);
    assert_eq!(messages.len(), 2);
    assert_eq!(messages[0].path_id(), &path_id);
    assert_eq!(messages[0].offset(), 0);
    assert_eq!(messages[0].block_size(), 128 * 1024);
    assert_eq!(messages[1].offset(), 128 * 1024);
    assert_eq!(messages[1].block_size(), 7);
    assert_eq!(messages[0].hash(), entry.blocks()[0].hash());
    assert_eq!(messages[1].hash(), entry.blocks()[1].hash());
    assert!(messages[0].offset() < messages[1].offset());
}
