//! A per-owner store of small title-and-status records.
//!
//! Every owner has one counter, which hands out sequence numbers, and one
//! record per sequence number handed out. Counters and records are found by
//! what identifies them (the owner, and for a record its sequence number)
//! and never through a pointer or an index table.

pub mod error;
pub mod title;
pub mod account;
pub mod instruction;
pub mod address;
pub mod store;
pub mod laws;
