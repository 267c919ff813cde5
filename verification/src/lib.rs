//! A verified manager for a detached vector index.
//!
//! The crate sits between a host query engine and a columnar storage
//! backend: it allocates row labels, derives and constructs columnar
//! schemas, assembles row batches from flat vector buffers, remaps
//! labels when live rows are merged between indexes, and materializes
//! search results.  Storage itself (appending, scanning, deleting,
//! building approximate-nearest-neighbor indexes) is performed by the
//! backend; this crate computes exactly what is handed to it and what
//! is read back, and proves the identifier-uniqueness and schema
//! invariants that the manager owns.

pub mod batches;
pub mod errors;
pub mod labels;
pub mod manager;
pub mod metadata;
pub mod predicate;
pub mod schema;
pub mod runtime;
