//! A minimal concurrent in-memory key-value map.
//!
//! `Storage` maps `u64` keys to `String` values and offers four
//! operations: insert/update, point lookup, full enumeration, and removal.
//! Each operation's contract is stated over the store's abstract state, a
//! `Map<u64, Seq<char>>`.

pub mod bench;
pub mod laws;
pub mod storage;

pub use storage::Storage;
