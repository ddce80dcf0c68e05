//! Wire codec layer: symmetric encode/decode routines for every protocol
//! message, over a length-delimited, resumable framing discipline.
//!
//! Every decoder either consumes one complete message, reports that the
//! buffered bytes are incomplete (consuming nothing), or fails fatally on
//! malformed or oversized data.

pub mod block_info;
pub mod buffer;
pub mod file_entry;
pub mod file_info;
pub mod folder_index;
pub mod hello;
pub mod message;
pub mod watcher;
pub mod wire;
