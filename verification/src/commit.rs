//! The write/commit pipeline: turns a change-set into the exact writes the
//! backing store must apply for one commit.
//!
//! A commit follows a fixed protocol: first the preimage and reverse-index
//! writes for every verifiable change, then the tree algorithm consumes the
//! (key-hash, optional value) pairs and emits the new root and a node
//! batch, then the node batch is persisted under the order-preserving key
//! encodings, and last the non-verifiable changes are applied to their own
//! partition. All writes of one commit must land through one atomic write
//! path, so no reader observes a partially applied commit.

use std::sync::Arc;

use vstd::prelude::*;

use crate::config::SubstoreConfig;
use crate::hash::key_hash_of;
use crate::hash::keyhash_of;
use crate::node_key::node_key_enc;
use crate::node_key::DbNodeKey;
use crate::node_key::NodeId;
use crate::value_key::encode_value;
use crate::value_key::opt_bytes_view;
use crate::value_key::value_enc;
use crate::value_key::versioned_key;
use crate::value_key::VersionedKeyHash;

verus! {

/// The five partitions of one namespace in the backing store.
#[derive(Debug, PartialEq, Eq, Structural, Clone, Copy)]
pub enum Partition {
    /// Tree nodes under their order-preserving keys.
    Nodes,
    /// The value log keyed by key-hash and version.
    Values,
    /// The preimage index: logical key to key-hash.
    Keys,
    /// The reverse index: key-hash to logical key.
    KeysByKeyHash,
    /// Auxiliary data outside the tree.
    NonVerifiable,
}

/// One write against a named partition.
#[derive(Debug)]
pub enum WriteOp {
    /// Stores `value` under `key`.
    Put { partition: Partition, key: Vec<u8>, value: Vec<u8> },
    /// Removes `key`.
    Delete { partition: Partition, key: Vec<u8> },
}

impl WriteOp {
    /// The partition this write targets.
    pub open spec fn part(self) -> Partition {
        match self {
            WriteOp::Put { partition, .. } => partition,
            WriteOp::Delete { partition, .. } => partition,
        }
    }

    /// Whether this write stores a value (rather than removing a key).
    pub open spec fn is_put(self) -> bool {
        self is Put
    }

    /// The key written or removed.
    pub open spec fn key_view(self) -> Seq<u8> {
        match self {
            WriteOp::Put { key, .. } => key@,
            WriteOp::Delete { key, .. } => key@,
        }
    }

    /// The value stored by a put.
    pub open spec fn value_view(self) -> Seq<u8>
        recommends
            self.is_put(),
    {
        match self {
            WriteOp::Put { value, .. } => value@,
            WriteOp::Delete { .. } => Seq::empty(),
        }
    }
}

/// A caller-supplied change-set: pending writes to the verifiable store and
/// to the non-verifiable store. In each list a key appears at most once;
/// an entry with a value is an upsert, one without is a delete.
#[derive(Debug)]
pub struct Cache {
    /// Pending verifiable changes, keyed by logical key.
    pub unwritten_changes: Vec<(Vec<u8>, Option<Vec<u8>>)>,
    /// Pending non-verifiable changes.
    pub nonverifiable_changes: Vec<(Vec<u8>, Option<Vec<u8>>)>,
}

fn clone_bytes(v: &Vec<u8>) -> (r: Vec<u8>)
    ensures
        r@ == v@,
{
    let mut r: Vec<u8> = Vec::new();
    let mut i: usize = 0;
    while i < v.len()
        invariant
            i <= v@.len(),
            r@ == v@.subrange(0, i as int),
        decreases v@.len() - i,
    {
        r.push(v[i]);
        proof {
            assert(v@.subrange(0, i + 1) =~= v@.subrange(0, i as int) + seq![v@[i as int]]);
        }
        i = i + 1;
    }
    proof {
        assert(v@.subrange(0, v@.len() as int) =~= v@);
    }
    r
}

fn arr32_to_vec(a: &[u8; 32]) -> (r: Vec<u8>)
    ensures
        r@ == a@,
{
    let mut r: Vec<u8> = Vec::new();
    let mut i: usize = 0;
    while i < 32
        invariant
            i <= 32,
            r@ == a@.subrange(0, i as int),
        decreases 32 - i,
    {
        r.push(a[i]);
        proof {
            assert(a@.subrange(0, i + 1) =~= a@.subrange(0, i as int) + seq![a@[i as int]]);
        }
        i = i + 1;
    }
    proof {
        assert(a@.subrange(0, 32) =~= a@);
    }
    r
}

/// The index-write pairs that a change-list demands: for each change, an
/// upsert writes key-to-hash into the preimage index and hash-to-key into
/// the reverse index; a delete removes both entries.
pub open spec fn index_pairs_for(
    changes: Seq<(Vec<u8>, Option<Vec<u8>>)>,
    pairs: Seq<(WriteOp, WriteOp)>,
) -> bool {
    &&& pairs.len() == changes.len()
    &&& forall|i: int|
        #![trigger changes[i]]
        0 <= i < changes.len() ==> {
            &&& (changes[i].1 is Some ==> pairs[i].0.is_put() && pairs[i].0.part()
                == Partition::Keys && pairs[i].0.key_view() == changes[i].0@
                && pairs[i].0.value_view() == keyhash_of(changes[i].0@) && pairs[i].1.is_put()
                && pairs[i].1.part() == Partition::KeysByKeyHash && pairs[i].1.key_view()
                == keyhash_of(changes[i].0@) && pairs[i].1.value_view() == changes[i].0@)
            &&& (changes[i].1 is None ==> !pairs[i].0.is_put() && pairs[i].0.part()
                == Partition::Keys && pairs[i].0.key_view() == changes[i].0@ && !pairs[i].1.is_put()
                && pairs[i].1.part() == Partition::KeysByKeyHash && pairs[i].1.key_view()
                == keyhash_of(changes[i].0@))
        }
}

/// The (key-hash, optional value) pairs the tree consumes for a
/// change-list: each logical key replaced by its hash, values unchanged.
pub open spec fn value_set_for(
    changes: Seq<(Vec<u8>, Option<Vec<u8>>)>,
    vset: Seq<([u8; 32], Option<Vec<u8>>)>,
) -> bool {
    &&& vset.len() == changes.len()
    &&& forall|i: int|
        #![trigger changes[i]]
        0 <= i < changes.len() ==> vset[i].0@ == keyhash_of(changes[i].0@) && opt_bytes_view(
            vset[i].1,
        ) == opt_bytes_view(changes[i].1)
}

/// Plans the verifiable half of a commit. For every change the logical key
/// is hashed; an upsert writes key-to-hash into the preimage index and
/// hash-to-key into the reverse index, a delete removes both entries. These
/// index writes must land in the same atomic write phase as the tree
/// mutation, before the tree processes deletions, so a deleted key's
/// preimage still resolves for proofs against the prior version but not at
/// the new one. The returned pairs (key-hash, optional value) are what the
/// tree algorithm consumes to produce the new root.
pub fn plan_verifiable_ops(changes: &Vec<(Vec<u8>, Option<Vec<u8>>)>) -> (r: (
    Vec<(WriteOp, WriteOp)>,
    Vec<([u8; 32], Option<Vec<u8>>)>,
))
    ensures
        index_pairs_for(changes@, r.0@),
        value_set_for(changes@, r.1@),
{
    let mut index_ops: Vec<(WriteOp, WriteOp)> = Vec::new();
    let mut value_set: Vec<([u8; 32], Option<Vec<u8>>)> = Vec::new();
    let mut i: usize = 0;
    while i < changes.len()
        invariant
            i <= changes@.len(),
            index_ops@.len() == i,
            value_set@.len() == i,
            forall|t: int|
                #![trigger changes@[t]]
                0 <= t < i ==> {
                    &&& value_set@[t].0@ == keyhash_of(changes@[t].0@)
                    &&& opt_bytes_view(value_set@[t].1) == opt_bytes_view(changes@[t].1)
                    &&& (changes@[t].1 is Some ==> index_ops@[t].0.is_put()
                        && index_ops@[t].0.part() == Partition::Keys
                        && index_ops@[t].0.key_view() == changes@[t].0@
                        && index_ops@[t].0.value_view() == keyhash_of(changes@[t].0@)
                        && index_ops@[t].1.is_put()
                        && index_ops@[t].1.part() == Partition::KeysByKeyHash
                        && index_ops@[t].1.key_view() == keyhash_of(changes@[t].0@)
                        && index_ops@[t].1.value_view() == changes@[t].0@)
                    &&& (changes@[t].1 is None ==> !index_ops@[t].0.is_put()
                        && index_ops@[t].0.part() == Partition::Keys
                        && index_ops@[t].0.key_view() == changes@[t].0@
                        && !index_ops@[t].1.is_put()
                        && index_ops@[t].1.part() == Partition::KeysByKeyHash
                        && index_ops@[t].1.key_view() == keyhash_of(changes@[t].0@))
                },
        decreases changes@.len() - i,
    {
        let key = &changes[i].0;
        let hash: [u8; 32] = key_hash_of(key);
        match &changes[i].1 {
            Some(value) => {
                let op_keys = WriteOp::Put {
                    partition: Partition::Keys,
                    key: clone_bytes(key),
                    value: arr32_to_vec(&hash),
                };
                let op_by_hash = WriteOp::Put {
                    partition: Partition::KeysByKeyHash,
                    key: arr32_to_vec(&hash),
                    value: clone_bytes(key),
                };
                index_ops.push((op_keys, op_by_hash));
                value_set.push((hash, Some(clone_bytes(value))));
            },
            None => {
                let op_keys = WriteOp::Delete {
                    partition: Partition::Keys,
                    key: clone_bytes(key),
                };
                let op_by_hash = WriteOp::Delete {
                    partition: Partition::KeysByKeyHash,
                    key: arr32_to_vec(&hash),
                };
                index_ops.push((op_keys, op_by_hash));
                value_set.push((hash, None));
            },
        }
        i = i + 1;
    }
    (index_ops, value_set)
}

/// The non-verifiable writes a change-list demands: an upsert stores, a
/// delete removes, all against the non-verifiable partition only.
pub open spec fn nonverifiable_ops_for(
    changes: Seq<(Vec<u8>, Option<Vec<u8>>)>,
    ops: Seq<WriteOp>,
) -> bool {
    &&& ops.len() == changes.len()
    &&& forall|i: int| 0 <= i < ops.len() ==> (#[trigger] ops[i]).part() == Partition::NonVerifiable
    &&& forall|i: int|
        #![trigger changes[i]]
        0 <= i < changes.len() ==> {
            &&& ops[i].key_view() == changes[i].0@
            &&& (changes[i].1 is Some ==> ops[i].is_put() && ops[i].value_view()
                == changes[i].1.unwrap()@)
            &&& (changes[i].1 is None ==> !ops[i].is_put())
        }
}

/// Plans the non-verifiable half of a commit: an upsert stores the value,
/// a delete removes the key, all against the non-verifiable partition only.
/// These writes are invisible to the tree and contribute nothing to the
/// root hash.
pub fn plan_nonverifiable_ops(changes: &Vec<(Vec<u8>, Option<Vec<u8>>)>) -> (r: Vec<WriteOp>)
    ensures
        nonverifiable_ops_for(changes@, r@),
{
    let mut ops: Vec<WriteOp> = Vec::new();
    let mut i: usize = 0;
    while i < changes.len()
        invariant
            i <= changes@.len(),
            ops@.len() == i,
            forall|t: int|
                0 <= t < i ==> (#[trigger] ops@[t]).part() == Partition::NonVerifiable,
            forall|t: int|
                #![trigger changes@[t]]
                0 <= t < i ==> {
                    &&& ops@[t].key_view() == changes@[t].0@
                    &&& (changes@[t].1 is Some ==> ops@[t].is_put() && ops@[t].value_view()
                        == changes@[t].1.unwrap()@)
                    &&& (changes@[t].1 is None ==> !ops@[t].is_put())
                },
        decreases changes@.len() - i,
    {
        let key = &changes[i].0;
        match &changes[i].1 {
            Some(value) => {
                ops.push(WriteOp::Put {
                    partition: Partition::NonVerifiable,
                    key: clone_bytes(key),
                    value: clone_bytes(value),
                });
            },
            None => {
                ops.push(WriteOp::Delete {
                    partition: Partition::NonVerifiable,
                    key: clone_bytes(key),
                });
            },
        }
        i = i + 1;
    }
    ops
}

/// The write half of one namespace's commit: shares the configuration with
/// its snapshots and plans the writes that persist a node batch.
pub struct SubstoreStorage {
    /// The namespace written to.
    pub config: Arc<SubstoreConfig>,
}

impl SubstoreStorage {
    /// Plans every decision of one commit that does not depend on the
    /// tree's output: the index writes and the tree's value set for the
    /// verifiable changes, and the writes for the non-verifiable changes.
    /// The protocol order stands: the index pairs are applied first, the
    /// value set then drives the tree to the new root and node batch
    /// (persisted through `write_node_batch`), and the non-verifiable
    /// writes come last; all through one atomic write path.
    pub fn commit_plan(&self, cache: &Cache) -> (r: (
        Vec<(WriteOp, WriteOp)>,
        Vec<([u8; 32], Option<Vec<u8>>)>,
        Vec<WriteOp>,
    ))
        ensures
            index_pairs_for(cache.unwritten_changes@, r.0@),
            value_set_for(cache.unwritten_changes@, r.1@),
            nonverifiable_ops_for(cache.nonverifiable_changes@, r.2@),
    {
        let (index_pairs, value_set) = plan_verifiable_ops(&cache.unwritten_changes);
        let nonverifiable_ops = plan_nonverifiable_ops(&cache.nonverifiable_changes);
        (index_pairs, value_set, nonverifiable_ops)
    }

    /// Plans the persistence of a node batch: every node goes under its
    /// order-preserving encoded key, and every value-log entry goes under
    /// its key-hash-and-version key with the optional value encoded
    /// explicitly — a deletion is stored as a tombstone, not as a key
    /// removal, so point-in-time reads at earlier versions are unaffected.
    /// The length bounds are forced by the 32-bit length prefixes of the
    /// encodings.
    pub fn write_node_batch(
        &self,
        nodes: &Vec<(NodeId, Vec<u8>)>,
        values: &Vec<(u64, [u8; 32], Option<Vec<u8>>)>,
    ) -> (r: (Vec<WriteOp>, Vec<WriteOp>))
        requires
            forall|i: int| 0 <= i < nodes@.len() ==> (#[trigger] nodes@[i]).0.path@.len()
                <= u32::MAX,
            forall|i: int|
                0 <= i < values@.len() ==> ((#[trigger] values@[i]).2 matches Some(b) ==> b@.len()
                    <= u32::MAX),
        ensures
            r.0@.len() == nodes@.len(),
            r.1@.len() == values@.len(),
            forall|i: int|
                #![trigger nodes@[i]]
                0 <= i < nodes@.len() ==> {
                    &&& r.0@[i].is_put()
                    &&& r.0@[i].part() == Partition::Nodes
                    &&& r.0@[i].key_view() == node_key_enc(
                        nodes@[i].0.version,
                        nodes@[i].0.num_nibbles,
                        nodes@[i].0.path@,
                    )
                    &&& r.0@[i].value_view() == nodes@[i].1@
                },
            forall|i: int|
                #![trigger values@[i]]
                0 <= i < values@.len() ==> {
                    &&& r.1@[i].is_put()
                    &&& r.1@[i].part() == Partition::Values
                    &&& r.1@[i].key_view() == versioned_key(values@[i].1@, values@[i].0)
                    &&& r.1@[i].value_view() == value_enc(opt_bytes_view(values@[i].2))
                },
    {
        let mut node_ops: Vec<WriteOp> = Vec::new();
        let mut i: usize = 0;
        while i < nodes.len()
            invariant
                i <= nodes@.len(),
                node_ops@.len() == i,
                forall|t: int| 0 <= t < nodes@.len() ==> (#[trigger] nodes@[t]).0.path@.len()
                    <= u32::MAX,
                forall|t: int|
                    #![trigger nodes@[t]]
                    #![trigger node_ops@[t]]
                    0 <= t < i ==> {
                        &&& node_ops@[t].is_put()
                        &&& node_ops@[t].part() == Partition::Nodes
                        &&& node_ops@[t].key_view() == node_key_enc(
                            nodes@[t].0.version,
                            nodes@[t].0.num_nibbles,
                            nodes@[t].0.path@,
                        )
                        &&& node_ops@[t].value_view() == nodes@[t].1@
                    },
            decreases nodes@.len() - i,
        {
            let id = NodeId {
                version: nodes[i].0.version,
                num_nibbles: nodes[i].0.num_nibbles,
                path: clone_bytes(&nodes[i].0.path),
            };
            let db_key = DbNodeKey::from(id);
            let encoded = match db_key.encode() {
                Ok(bytes) => bytes,
                Err(_) => {
                    proof {
                        assert(false);
                    }
                    Vec::new()
                },
            };
            node_ops.push(WriteOp::Put {
                partition: Partition::Nodes,
                key: encoded,
                value: clone_bytes(&nodes[i].1),
            });
            i = i + 1;
        }
        let mut value_ops: Vec<WriteOp> = Vec::new();
        let mut j: usize = 0;
        while j < values.len()
            invariant
                j <= values@.len(),
                value_ops@.len() == j,
                forall|t: int|
                    0 <= t < values@.len() ==> ((#[trigger] values@[t]).2 matches Some(b)
                        ==> b@.len() <= u32::MAX),
                forall|t: int|
                    #![trigger values@[t]]
                    #![trigger value_ops@[t]]
                    0 <= t < j ==> {
                        &&& value_ops@[t].is_put()
                        &&& value_ops@[t].part() == Partition::Values
                        &&& value_ops@[t].key_view() == versioned_key(values@[t].1@, values@[t].0)
                        &&& value_ops@[t].value_view() == value_enc(opt_bytes_view(values@[t].2))
                    },
            decreases values@.len() - j,
        {
            let vk = VersionedKeyHash::new(values[j].0, values[j].1);
            let payload = match &values[j].2 {
                Some(b) => Some(clone_bytes(b)),
                None => None,
            };
            let encoded_value = encode_value(&payload);
            value_ops.push(WriteOp::Put {
                partition: Partition::Values,
                key: vk.encode(),
                value: encoded_value,
            });
            j = j + 1;
        }
        (node_ops, value_ops)
    }
}

} // verus!
