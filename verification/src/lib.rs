//! Verified core of a height-keyed block store whose on-disk layout is an
//! index file (`blockdb.idx`) plus a set of data files (`blockdb_N.dat`).
//!
//! The library holds the file formats, the placement and recovery rules and
//! the bookkeeping of the store. It never touches a file itself: every
//! operation that needs the disk is split into steps, and the caller performs
//! the reads and writes that each step asks for and hands back what it read.

pub mod cache;
pub mod cli;
pub mod codec;
pub mod error;
pub mod ffi;
pub mod file_set;
pub mod import;
pub mod laws;
pub mod layout;
pub mod le;
pub mod legacy;
pub mod legacy_store;
pub mod leveldb_key;
pub mod model;
pub mod names;
pub mod outside;
pub mod parser;
pub mod store;

pub use codec::{BlockHeader, IndexEntry, IndexFileHeader};
