//! Safe, verified surface of an embedded document database: structured
//! errors, byte slices, the self-describing value graph and its mutable
//! overlay, documents, query results and replication state.
pub mod error;
pub mod fleece;
pub mod fleece_mutable;
pub mod slice;
pub mod document;
pub mod database;
pub mod query;
pub mod replicator;
pub mod logging;
