//! Read snapshots: immutable, point-in-time views of one namespace at one
//! version.
//!
//! A snapshot pairs the namespace configuration with a target version; the
//! backing store's own point-in-time view does the fetching, and the
//! decision logic here says what each fetched outcome means. The maximum
//! representable version doubles as the pre-genesis sentinel: before any
//! real version exists, reads run at the sentinel and a missing tree root is
//! benign there, while at any real version it is a genuine fault.

use std::sync::Arc;

use vstd::prelude::*;

use crate::config::SubstoreConfig;
use crate::node_key::interpret_rightmost_entry;
use crate::node_key::parse_node_body;
use crate::node_key::NodeId;
use crate::node_key::NodeKind;
use crate::StoreError;

verus! {

/// The canonical root hash of a namespace that was never written.
pub open spec fn zero_root() -> Seq<u8> {
    Seq::new(32, |i: int| 0u8)
}

/// What the tree algorithm reported for a plain lookup at one version.
#[derive(Debug)]
pub enum TreeGetOutcome {
    /// The key was found with this value.
    Value(Vec<u8>),
    /// The key is not in the tree at that version.
    Absent,
    /// The tree has no root at that version.
    MissingRoot,
    /// The lookup failed in the backing store.
    Failed,
}

/// An immutable, point-in-time view of one namespace at one version.
/// Created cheaply per operation, never mutated, dropped after use.
pub struct SubstoreSnapshot {
    /// The namespace this snapshot reads.
    pub config: Arc<SubstoreConfig>,
    /// The version this snapshot is bound to.
    pub version: u64,
}

impl SubstoreSnapshot {
    /// Binds a snapshot of the namespace at a version.
    pub fn new(config: Arc<SubstoreConfig>, version: u64) -> (r: SubstoreSnapshot)
        ensures
            r.config == config,
            r.version == version,
    {
        SubstoreSnapshot { config, version }
    }

    /// The version this snapshot reads at.
    pub fn version(&self) -> (r: u64)
        ensures
            r == self.version,
    {
        self.version
    }

    /// The root hash of the namespace at this snapshot's version, given
    /// what the tree algorithm found: the tree's root if one exists, and
    /// the canonical all-zero root for a namespace never written, rather
    /// than a failure.
    pub fn root_hash(&self, tree_root: Option<[u8; 32]>) -> (r: [u8; 32])
        ensures
            tree_root matches Some(h) ==> r == h,
            tree_root is None ==> r@ == zero_root(),
    {
        match tree_root {
            Some(h) => h,
            None => {
                let zero: [u8; 32] = [0u8; 32];
                proof {
                    assert(zero@ =~= zero_root());
                }
                zero
            },
        }
    }

    /// Resolves a plain tree lookup at this snapshot's version. A missing
    /// root is benign exactly at the pre-genesis sentinel (the maximum
    /// representable version, used before any real version exists), where
    /// it reads as "key not found"; at any other version it is a genuine
    /// fault and propagates. Backing-store failures propagate verbatim.
    pub fn get_jmt(&self, outcome: TreeGetOutcome) -> (r: Result<Option<Vec<u8>>, StoreError>)
        ensures
            match outcome {
                TreeGetOutcome::Value(v) => r matches Ok(o) && (o matches Some(b) && b@ == v@),
                TreeGetOutcome::Absent => r matches Ok(o) && o is None,
                TreeGetOutcome::MissingRoot => (if self.version == u64::MAX {
                    r matches Ok(o) && o is None
                } else {
                    r matches Err(e) && (e matches StoreError::MissingRoot { version }
                        && version == self.version)
                }),
                TreeGetOutcome::Failed => r matches Err(e) && e is Backend,
            },
    {
        match outcome {
            TreeGetOutcome::Value(v) => Ok(Some(v)),
            TreeGetOutcome::Absent => Ok(None),
            TreeGetOutcome::MissingRoot => {
                if self.version == u64::MAX {
                    Ok(None)
                } else {
                    Err(StoreError::MissingRoot { version: self.version })
                }
            },
            TreeGetOutcome::Failed => Err(StoreError::Backend),
        }
    }

    /// The rightmost (highest-version) leaf of this namespace, read off the
    /// last entry of the node partition under this snapshot's point-in-time
    /// view.
    pub fn get_rightmost_leaf(&self, rightmost: Option<(Vec<u8>, NodeKind)>) -> (r: Result<
        Option<NodeId>,
        StoreError,
    >)
        ensures
            rightmost is None ==> (r matches Ok(v) && v is None),
            r matches Err(e) ==> e is CorruptNodeKey,
            rightmost matches Some(p) ==> (if p.0@.len() >= 8 && parse_node_body(p.0@.skip(8))
                is Some {
                {
                    let t = parse_node_body(p.0@.skip(8)).unwrap();
                    r matches Ok(v) && (if p.1 is Leaf {
                        v matches Some(id) && id.version == t.0 && id.num_nibbles == t.1
                            && id.path@ == t.2
                    } else {
                        v is None
                    })
                }
            } else {
                r is Err
            }),
    {
        interpret_rightmost_entry(rightmost)
    }
}

} // verus!
