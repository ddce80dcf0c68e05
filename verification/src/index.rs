//! Folder indexing: content-addressed blocks, per-file entries and the
//! immutable folder-index snapshot built from a directory walk.

pub mod block_info;
pub mod builder;
pub mod file_info;
pub mod folder_index;
