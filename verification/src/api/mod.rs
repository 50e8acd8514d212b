//! The shapes that the request layer exchanges with the store.

pub mod models;
