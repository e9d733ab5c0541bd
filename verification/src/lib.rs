//! Versioned, Merkle-tree-backed key-value storage for independent logical
//! namespaces ("substores") sharing one physical backing store.
//!
//! The library covers the namespace-partitioning scheme, the order-preserving
//! key encodings that reconcile tree semantics with the backing store's
//! lexicographic iteration, the read-snapshot decision logic, and the commit
//! pipeline's write planning. The Merkle tree algorithm and the physical
//! key-value engine are outside collaborators, reached at their interface
//! boundary.

pub mod codec;
pub mod commit;
pub mod config;
pub mod hash;
pub mod laws;
pub mod snapshot;
pub mod validation;
pub mod node_key;
pub mod value_key;

use vstd::prelude::*;

verus! {

/// Errors surfaced by this storage layer.
#[derive(Debug)]
pub enum StoreError {
    /// A named partition is missing from the backing store: a configuration
    /// fault discovered at open time, not a recoverable runtime condition.
    MissingColumn { column: String },
    /// A stored node key was shorter than the fixed version prefix, or its
    /// body did not parse: data corruption.
    CorruptNodeKey { len: usize },
    /// A stored value-log entry did not parse: data corruption.
    CorruptValue { len: usize },
    /// The tree has no root at a version where one is required.
    MissingRoot { version: u64 },
    /// A backing-store failure, propagated verbatim to the caller.
    Backend,
}

} // verus!


