//! Verified core of a log-to-table ingestion pipeline.
//!
//! Raw messages pulled from a partitioned log are decoded, validated against
//! a fixed three-field record schema, assembled into columnar batches, and
//! appended atomically to a versioned table; message positions are
//! acknowledged only after the batch that subsumes them is durably written.

pub mod batch;
pub mod driver;
pub mod laws;
pub mod mock;
pub mod payload;
pub mod schema;
pub mod source;
pub mod table;
pub mod timestamp;
pub mod validate;
