use folder_sync::certificate::{
    certificate_filename_or_default, private_key_filename_or_default,
};
use folder_sync::file_cache::FileCache;
use folder_sync::messages::block_info::BlockInfo;
use folder_sync::messages::file_info::FileInfo;
use folder_sync::path_id_cache::PathIdCache;

// SHA3-256 of the three bytes `abc`.
fn sha3_of_abc() -> Vec<u8> {
    vec![
        0x3a, 0x98, 0x5d, 0xa7, 0x4f, 0xe2, 0x25, 0xb2, 0x04, 0x5c, 0x17, 0x2d, 0x6b, 0xd3,
        0x90, 0xbd, 0x85, 0x5f, 0x08, 0x6e, 0x3e, 0x9d, 0x52, 0x5b, 0x46, 0xbf, 0xe2, 0x45,
        0x11, 0x43, 0x15, 0x32,
    ]
}

fn meta(path: &str, size: u64, modified: u64) -> FileInfo {
    FileInfo::new(path.to_string(), size, 1, 128 * 1024, modified)
}

#[test]
fn path_identifier_is_the_sha3_fingerprint_of_the_path() {
    assert_eq!(PathIdCache::calculate_path_id("abc"), sha3_of_abc());

    let file = meta("abc", 1, 0);
    assert_eq!(file.calculate_hash_path(), sha3_of_abc());
}

#[test]
fn path_id_cache_is_a_bidirectional_lookup() {
    let mut cache = PathIdCache::default();
    cache.add_path("abc".to_string());
    cache.add_path("other/file".to_string());

    let id = PathIdCache::calculate_path_id("abc");
    assert_eq!(cache.get_path(&id), Some(&"abc".to_string()));

    let unknown = vec![0u8; 32];
    assert_eq!(cache.get_path(&unknown), None);
}

#[test]
fn file_cache_replaces_entries_by_path() {
    let mut cache = FileCache::default();
    cache.insert_file_info(meta("a", 1, 10));
    cache.insert_file_info(meta("b", 2, 20));
    cache.insert_file_info(meta("a", 3, 30));
    assert_eq!(cache.file_info.len(), 2);

    let stored = cache
        .file_info
        .iter()
        .find(|f| f.path() == "a")
        .expect("entry for `a`");
    assert_eq!(stored.size(), 3);
    assert_eq!(stored.last_modified(), 30);
}

#[test]
fn file_cache_groups_blocks_by_path_identifier() {
    let id_a = PathIdCache::calculate_path_id("a");
    let id_b = PathIdCache::calculate_path_id("b");
    let mut cache = FileCache::default();
    cache.insert_block_info(BlockInfo::new(id_a.clone(), 0, 4, 1));
    cache.insert_block_info(BlockInfo::new(id_a.clone(), 4, 4, 2));
    cache.insert_block_info(BlockInfo::new(id_b.clone(), 0, 4, 3));
    assert_eq!(cache.block_info.len(), 2);
    let for_a = cache
        .block_info
        .iter()
        .find(|e| e.path_id == id_a)
        .expect("blocks for `a`");
    assert_eq!(for_a.blocks.len(), 2);
    assert_eq!(for_a.blocks[0].offset(), 0);
    assert_eq!(for_a.blocks[1].offset(), 4);
}

#[test]
fn deleting_a_file_drops_its_metadata_and_blocks() {
    let id_a = PathIdCache::calculate_path_id("a");
    let mut cache = FileCache::default();
    cache.insert_file_info(meta("a", 1, 10));
    cache.insert_file_info(meta("b", 2, 20));
    cache.insert_block_info(BlockInfo::new(id_a, 0, 4, 1));

    cache.delete_file(&"a".to_string());
    assert_eq!(cache.file_info.len(), 1);
    assert_eq!(cache.file_info[0].path(), "b");
    assert_eq!(cache.block_info.len(), 0);

    // Deleting an unknown path leaves the cache unchanged.
    cache.delete_file(&"missing".to_string());
    assert_eq!(cache.file_info.len(), 1);
}

#[test]
fn renaming_a_file_moves_its_metadata() {
    let mut cache = FileCache::default();
    cache.insert_file_info(meta("old", 5, 50));
    cache.rename_file(&"old".to_string(), "new".to_string());
    assert_eq!(cache.file_info.len(), 1);
    assert_eq!(cache.file_info[0].path(), "new");
    assert_eq!(cache.file_info[0].size(), 5);
    assert_eq!(cache.file_info[0].last_modified(), 50);
}

#[test]
fn certificate_filenames_fall_back_to_defaults() {
    assert_eq!(certificate_filename_or_default(None), "cert");
    assert_eq!(
        certificate_filename_or_default(Some("my.pem".to_string())),
        "my.pem"
    );
    assert_eq!(private_key_filename_or_default(None), "private_key");
    assert_eq!(
        private_key_filename_or_default(Some("k.pem".to_string())),
        "k.pem"
    );
}
