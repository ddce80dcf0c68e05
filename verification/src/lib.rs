//! Core of a peer-to-peer folder synchronisation engine.
//!
//! The library turns files into deterministic sequences of content-addressed
//! blocks, aggregates them into immutable folder-index snapshots, carries
//! every protocol message through a resumable, length-delimited wire codec,
//! and drives the per-connection synchronisation state machine.
//!
//! All file, network and clock access lives outside this crate; the library
//! works on plain values handed in from that edge.

pub mod certificate;
pub mod file_cache;
pub mod hashes;
pub mod index;
pub mod messages;
pub mod path_id_cache;
pub mod policy;
pub mod publisher;
pub mod session;
