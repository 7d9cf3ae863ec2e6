//! An append-only record store: one administrator registers tracking
//! records, each filed under a key derived from its tracking id and lot id.
pub mod contract;
pub mod key;
pub mod laws;
pub mod store;
