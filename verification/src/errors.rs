//! The error kinds that the index manager reports.

use vstd::prelude::*;

verus! {

/// Everything that an index operation can fail with.
///
/// Each variant corresponds to one failure class: a released handle,
/// a vector or query whose length disagrees with the configured
/// dimension, a columnar layout that cannot be reconciled, an
/// exhausted label counter, an absent label, a size mismatch in a
/// flat buffer, and a failure reported by the storage backend.
#[derive(Debug, PartialEq, Eq)]
pub enum Error {
    /// The index has been closed; no operation is valid any more.
    NotOpen,
    /// A vector or query had `got` entries where the index is
    /// configured for `expected`.
    DimensionMismatch { expected: usize, got: usize },
    /// No fixed-width float-list column was found, so the vector
    /// dimension cannot be determined.
    NoVectorColumn,
    /// An incoming column could not be reconciled with the stored
    /// schema; `column` is its index among the data columns.
    CastFailed { column: usize },
    /// The incoming columnar data does not have the shape the stored
    /// schema asks for.
    SchemaMismatch,
    /// The label counter cannot reserve the requested range without
    /// leaving the 64-bit label space.
    Capacity,
    /// The label was not found (absent or tombstoned).
    NotFound,
    /// A flat vector buffer's length is not `count * dimension`.
    SizeMismatch,
    /// The storage backend failed.
    Storage,
}

impl Error {
    /// A short description, in place of `Display`.
    pub fn message(&self) -> &'static str {
        match self {
            Error::NotOpen => "table not open",
            Error::DimensionMismatch { .. } => "dimension mismatch",
            Error::NoVectorColumn => "no fixed-width float-list column found in schema",
            Error::CastFailed { .. } => "cast of incoming column failed",
            Error::SchemaMismatch => "incoming batch does not match the stored schema",
            Error::Capacity => "label space exhausted",
            Error::NotFound => "label not found",
            Error::SizeMismatch => "vector data size mismatch",
            Error::Storage => "storage backend failure",
        }
    }
}

} // verus!
