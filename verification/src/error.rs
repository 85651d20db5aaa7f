//! The library's error type.

use vstd::prelude::*;

verus! {

/// What went wrong, with a message.
#[derive(Debug, Clone, PartialEq)]
pub enum GratError {
    /// An internal inconsistency or missing input.
    Internal(String),
    /// An XDR payload of a type that could not be decoded (or encoded).
    XdrDecodingFailed { xdr_type: String, reason: String },
    /// A cache that could not be read or written.
    CacheError(String),
    /// A value that could not be encoded for the cache under a key.
    CacheSerializationError { key: String, reason: String },
    /// A cached value that could not be decoded into the requested type.
    CacheDeserializationError { key: String, reason: String },
    /// A transaction that could not be replayed.
    ReplayError(String),
    /// An error taxonomy that could not be loaded or checked.
    TaxonomyError(String),
    /// A transaction without Soroban data.
    NotSorobanTransaction,
}

/// A result with the library's error type.
pub type GratResult<T> = Result<T, GratError>;

} // verus!
