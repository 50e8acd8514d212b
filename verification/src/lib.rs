//! Bookkeeping core of a vector-backed review store: request validation,
//! the line-delimited metadata log, the shadow of the nearest-neighbour
//! index, and the protocol that keeps the two in lock-step.

pub mod api;
pub mod config;
pub mod embedding;
pub mod index;
pub mod json;
pub mod storage;
pub mod store;
pub mod text;
