//! Per-namespace ingestion buffer for a sequenced write path.
//!
//! A namespace accepts already-sequenced write operations, fans each one out
//! across the tables it touches, and tracks enough state to answer how much of
//! the namespace's write stream is durable and queryable at any moment.

pub mod capabilities;
pub mod dml;
pub mod ids;
pub mod index;
pub mod names;
pub mod namespace;
pub mod progress;
pub mod sequence;
pub mod table;
