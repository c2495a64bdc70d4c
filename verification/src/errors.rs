//! The bridge's error taxonomy.
//!
//! Every recoverable failure of the interchange surfaces as one of these
//! values; the bridge never panics on a type or schema mismatch.

use vstd::prelude::*;

verus! {

/// An error of the data interchange or of the foreign-function bridge.
#[derive(Debug, Clone, PartialEq, Eq)]
pub enum DataFusionError {
    /// A type outside the supported set was asked for, named as the caller
    /// wrote it.
    UnsupportedType(String),
    /// A buffer that the type layout requires was absent.
    NullBufferMissing,
    /// A buffer's length, or a column's length, is incompatible with the
    /// declared array length.
    LengthMismatch,
    /// The structure found when decoding does not match the declared schema.
    SchemaMismatch,
    /// An operation required an alignment that the source address cannot
    /// guarantee.
    BufferAlignmentError,
    /// The host callable raised, or returned a value incompatible with the
    /// declared result type; the message describes the failure.
    ForeignCallFailure(String),
}

} // verus!
