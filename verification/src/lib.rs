//! A bounded, deduplicating priority buffer of pending transactions, with
//! the construction of its records from raw packets.
pub mod blockstore_options;
pub mod buffer;
pub mod heap;
pub mod ingest;
pub mod laws;
pub mod model;
pub mod ordering;
pub mod outside;
pub mod packet;
pub mod record;
pub mod wire;
