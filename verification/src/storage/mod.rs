//! Persistent structures of the store.

pub mod jsonl;
