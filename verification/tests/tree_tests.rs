use std::collections::BTreeMap;
use std::sync::Arc;

use anyhow::Result;
use jmt::storage::{HasPreimage, LeafNode, Node, NodeKey, TreeReader};
use jmt::{KeyHash, Sha256Jmt};
use substore::commit::{plan_nonverifiable_ops, Cache, Partition, SubstoreStorage, WriteOp};
use substore::config::SubstoreConfig;
use substore::node_key::{DbNodeKey, NodeId};
use substore::snapshot::{SubstoreSnapshot, TreeGetOutcome};
use substore::value_key::{decode_value, value_query};

/// An in-memory ordered backing store with the namespace's five partitions,
/// reading through the library's key encodings and decision logic.
struct TestStore {
    nodes: BTreeMap<Vec<u8>, Vec<u8>>,
    values: BTreeMap<Vec<u8>, Vec<u8>>,
    keys: BTreeMap<Vec<u8>, Vec<u8>>,
    keys_by_keyhash: BTreeMap<Vec<u8>, Vec<u8>>,
    nonverifiable: BTreeMap<Vec<u8>, Vec<u8>>,
}

impl TestStore {
    fn new() -> Self {
        TestStore {
            nodes: BTreeMap::new(),
            values: BTreeMap::new(),
            keys: BTreeMap::new(),
            keys_by_keyhash: BTreeMap::new(),
            nonverifiable: BTreeMap::new(),
        }
    }

    fn partition(&mut self, p: &Partition) -> &mut BTreeMap<Vec<u8>, Vec<u8>> {
        match p {
            Partition::Nodes => &mut self.nodes,
            Partition::Values => &mut self.values,
            Partition::Keys => &mut self.keys,
            Partition::KeysByKeyHash => &mut self.keys_by_keyhash,
            Partition::NonVerifiable => &mut self.nonverifiable,
        }
    }

    fn apply(&mut self, op: WriteOp) {
        match op {
            WriteOp::Put { partition, key, value } => {
                self.partition(&partition).insert(key, value);
            },
            WriteOp::Delete { partition, key } => {
                self.partition(&partition).remove(&key);
            },
        }
    }
}

fn to_node_id(node_key: &NodeKey) -> NodeId {
    // the stored form of a node key is its native serialization behind the
    // big-endian version prefix; decode through the library
    let mut bytes = node_key.version().to_be_bytes().to_vec();
    bytes.extend_from_slice(&borsh::to_vec(node_key).unwrap());
    DbNodeKey::decode(&bytes).unwrap().into_inner()
}

impl TreeReader for TestStore {
    fn get_node_option(&self, node_key: &NodeKey) -> Result<Option<Node>> {
        let encoded = DbNodeKey::from(to_node_id(node_key))
            .encode()
            .map_err(|_| anyhow::Error::msg("node key too long"))?;
        match self.nodes.get(&encoded) {
            Some(bytes) => Ok(Some(borsh::from_slice::<Node>(bytes)?)),
            None => Ok(None),
        }
    }

    fn get_value_option(
        &self,
        max_version: jmt::Version,
        key_hash: KeyHash,
    ) -> Result<Option<jmt::OwnedValue>> {
        let q = value_query(&key_hash.0, max_version);
        if let Some(probe) = &q.probe_max {
            if let Some(bytes) = self.values.get(probe) {
                return decode_value(bytes).map_err(|_| anyhow::Error::msg("corrupt value"));
            }
        }
        match self.values.range(q.lower.clone()..q.upper.clone()).next_back() {
            Some((_key, bytes)) => {
                decode_value(bytes).map_err(|_| anyhow::Error::msg("corrupt value"))
            },
            None => Ok(None),
        }
    }

    fn get_rightmost_leaf(&self) -> Result<Option<(NodeKey, LeafNode)>> {
        match self.nodes.iter().next_back() {
            Some((key, bytes)) => {
                let node_key = borsh::from_slice::<NodeKey>(&key[8..])?;
                match borsh::from_slice::<Node>(bytes)? {
                    Node::Leaf(leaf) => Ok(Some((node_key, leaf))),
                    _ => Ok(None),
                }
            },
            None => Ok(None),
        }
    }
}

impl HasPreimage for TestStore {
    fn preimage(&self, key_hash: KeyHash) -> Result<Option<Vec<u8>>> {
        Ok(self.keys_by_keyhash.get(key_hash.0.as_slice()).cloned())
    }
}

/// Drives one commit through the library's planners against the test store,
/// in the protocol order: index writes, tree update, node batch, then the
/// non-verifiable changes.
fn commit(
    store: &mut TestStore,
    changes: Vec<(Vec<u8>, Option<Vec<u8>>)>,
    nonverifiable: Vec<(Vec<u8>, Option<Vec<u8>>)>,
    version: u64,
) -> [u8; 32] {
    let storage = SubstoreStorage { config: Arc::new(SubstoreConfig::new("".to_string())) };
    let cache = Cache { unwritten_changes: changes, nonverifiable_changes: nonverifiable };
    let (pairs, value_set, nonverifiable_ops) = storage.commit_plan(&cache);
    for (first, second) in pairs {
        store.apply(first);
        store.apply(second);
    }
    let (root, batch) = {
        let tree = Sha256Jmt::new(&*store);
        tree.put_value_set(value_set.into_iter().map(|(h, v)| (KeyHash(h), v)), version)
            .expect("tree update must succeed")
    };
    let mut nodes: Vec<(NodeId, Vec<u8>)> = Vec::new();
    for (node_key, node) in batch.node_batch.nodes() {
        nodes.push((to_node_id(node_key), borsh::to_vec(node).unwrap()));
    }
    let mut values: Vec<(u64, [u8; 32], Option<Vec<u8>>)> = Vec::new();
    for ((ver, key_hash), value) in batch.node_batch.values() {
        values.push((*ver, key_hash.0, value.clone()));
    }
    let (node_ops, value_ops) = storage.write_node_batch(&nodes, &values);
    for op in node_ops {
        store.apply(op);
    }
    for op in value_ops {
        store.apply(op);
    }
    for op in nonverifiable_ops {
        store.apply(op);
    }
    root.0
}

fn root_of(store: &TestStore, version: u64) -> [u8; 32] {
    let tree = Sha256Jmt::new(store);
    let fetched = tree.get_root_hash_option(version).unwrap().map(|r| r.0);
    let snap = SubstoreSnapshot::new(Arc::new(SubstoreConfig::new("".to_string())), version);
    snap.root_hash(fetched)
}

fn get_at(store: &TestStore, key: &[u8], version: u64) -> Option<Vec<u8>> {
    let tree = Sha256Jmt::new(store);
    let snap = SubstoreSnapshot::new(Arc::new(SubstoreConfig::new("".to_string())), version);
    let outcome = match tree.get(KeyHash::with::<sha2::Sha256>(key), version) {
        Ok(Some(value)) => TreeGetOutcome::Value(value),
        Ok(None) => TreeGetOutcome::Absent,
        Err(e) if e.downcast_ref::<jmt::MissingRootError>().is_some() => {
            TreeGetOutcome::MissingRoot
        },
        Err(_) => TreeGetOutcome::Failed,
    };
    snap.get_jmt(outcome).expect("read must not fail")
}

#[test]
fn empty_tree_reads_zero_root_and_absence() {
    let store = TestStore::new();
    assert_eq!(root_of(&store, u64::MAX), [0u8; 32]);
    // a lookup at the pre-genesis sentinel version reports absence, no error
    assert_eq!(get_at(&store, b"anything", u64::MAX), None);
}

#[test]
fn scenario_two_commits() {
    let mut store = TestStore::new();
    let r0 = commit(
        &mut store,
        vec![(b"A".to_vec(), Some(b"1".to_vec())), (b"B".to_vec(), Some(b"2".to_vec()))],
        vec![],
        0,
    );
    assert_eq!(root_of(&store, 0), r0);
    let r1 = commit(&mut store, vec![(b"A".to_vec(), Some(b"3".to_vec())), (b"B".to_vec(), None)], vec![], 1);
    assert_ne!(r1, r0);
    // the snapshot at version 0 still reads the old state
    assert_eq!(get_at(&store, b"A", 0), Some(b"1".to_vec()));
    assert_eq!(get_at(&store, b"B", 0), Some(b"2".to_vec()));
    // the snapshot at version 1 reads the new state
    assert_eq!(get_at(&store, b"A", 1), Some(b"3".to_vec()));
    assert_eq!(get_at(&store, b"B", 1), None);
    // B's preimage index entries are gone from the live state
    let hash_b = KeyHash::with::<sha2::Sha256>(b"B").0;
    assert!(!store.keys.contains_key(&b"B".to_vec()));
    assert!(!store.keys_by_keyhash.contains_key(&hash_b.to_vec()));
    // A's are present and consistent
    let hash_a = KeyHash::with::<sha2::Sha256>(b"A").0;
    assert_eq!(store.keys.get(&b"A".to_vec()), Some(&hash_a.to_vec()));
    assert_eq!(store.keys_by_keyhash.get(&hash_a.to_vec()), Some(&b"A".to_vec()));
}

#[test]
fn commit_of_empty_change_set_keeps_root() {
    let mut store = TestStore::new();
    let r0 = commit(&mut store, vec![(b"K".to_vec(), Some(b"v".to_vec()))], vec![], 0);
    let r1 = commit(&mut store, vec![], vec![], 1);
    assert_eq!(r1, r0);
}

#[test]
fn nonverifiable_writes_never_change_the_root() {
    let mut store = TestStore::new();
    let r0 = commit(&mut store, vec![(b"K".to_vec(), Some(b"v".to_vec()))], vec![], 0);
    for op in plan_nonverifiable_ops(&vec![(b"side".to_vec(), Some(b"data".to_vec()))]) {
        store.apply(op);
    }
    assert_eq!(root_of(&store, 0), r0);
    assert_eq!(store.nonverifiable.get(&b"side".to_vec()), Some(&b"data".to_vec()));
}

#[test]
fn proofs_verify_against_the_root() {
    let mut store = TestStore::new();
    let r0 = commit(
        &mut store,
        vec![(b"A".to_vec(), Some(b"1".to_vec())), (b"B".to_vec(), Some(b"2".to_vec()))],
        vec![],
        0,
    );
    let tree = Sha256Jmt::new(&store);
    let (value, proof) = tree.get_with_ics23_proof(b"A".to_vec(), 0).unwrap();
    assert_eq!(value, Some(b"1".to_vec()));
    assert!(ics23::verify_membership::<ics23::HostFunctionsManager>(
        &proof,
        &jmt::ics23_spec(),
        &r0.to_vec(),
        b"A",
        b"1",
    ));
    let (absent, non_proof) = tree.get_with_ics23_proof(b"C".to_vec(), 0).unwrap();
    assert_eq!(absent, None);
    assert!(ics23::verify_non_membership::<ics23::HostFunctionsManager>(
        &non_proof,
        &jmt::ics23_spec(),
        &r0.to_vec(),
        b"C",
    ));
}

#[test]
fn historical_value_log_keeps_tombstoned_entries() {
    let mut store = TestStore::new();
    commit(&mut store, vec![(b"K".to_vec(), Some(b"v".to_vec()))], vec![], 0);
    let entries_before = store.values.len();
    commit(&mut store, vec![(b"K".to_vec(), None)], vec![], 1);
    // the deletion adds a tombstone entry; nothing is removed from the log
    assert_eq!(store.values.len(), entries_before + 1);
}

#[test]
fn rightmost_leaf_tracks_latest_version() {
    let mut store = TestStore::new();
    assert!(store.get_rightmost_leaf().unwrap().is_none());
    commit(&mut store, vec![(b"K".to_vec(), Some(b"v".to_vec()))], vec![], 0);
    commit(&mut store, vec![(b"K".to_vec(), Some(b"w".to_vec()))], vec![], 1);
    let (node_key, _leaf) = store.get_rightmost_leaf().unwrap().expect("a leaf exists");
    assert_eq!(node_key.version(), 1);
}
