use std::sync::Arc;

use sha2::Digest;
use substore::commit::{
    plan_nonverifiable_ops, plan_verifiable_ops, Partition, SubstoreStorage, WriteOp,
};
use substore::config::SubstoreConfig;
use substore::node_key::{DbNodeKey, NodeId};
use substore::snapshot::{SubstoreSnapshot, TreeGetOutcome};
use substore::validation::{no_duplicate_nullifiers, ValidationError};
use substore::StoreError;

fn sha256(data: &[u8]) -> [u8; 32] {
    let digest = sha2::Sha256::digest(data);
    let mut out = [0u8; 32];
    out.copy_from_slice(&digest);
    out
}

#[test]
fn verifiable_plan_hashes_keys_with_sha256() {
    // The key-hash must be the cryptographic digest of the raw key; a plan
    // that passed the key through unchanged would fail here.
    let changes = vec![(b"penumbra".to_vec(), Some(b"v".to_vec()))];
    let (_pairs, value_set) = plan_verifiable_ops(&changes);
    assert_eq!(value_set.len(), 1);
    assert_eq!(value_set[0].0, sha256(b"penumbra"));
    assert_ne!(value_set[0].0.to_vec(), b"penumbra".to_vec());
    assert_eq!(value_set[0].1, Some(b"v".to_vec()));
}

#[test]
fn verifiable_plan_upsert_writes_both_indices() {
    let changes = vec![(b"k".to_vec(), Some(b"v".to_vec()))];
    let (pairs, _) = plan_verifiable_ops(&changes);
    assert_eq!(pairs.len(), 1);
    let h = sha256(b"k").to_vec();
    match &pairs[0].0 {
        WriteOp::Put { partition, key, value } => {
            assert_eq!(*partition, Partition::Keys);
            assert_eq!(key, &b"k".to_vec());
            assert_eq!(value, &h);
        },
        other => panic!("expected a put: {:?}", other),
    }
    match &pairs[0].1 {
        WriteOp::Put { partition, key, value } => {
            assert_eq!(*partition, Partition::KeysByKeyHash);
            assert_eq!(key, &h);
            assert_eq!(value, &b"k".to_vec());
        },
        other => panic!("expected a put: {:?}", other),
    }
}

#[test]
fn verifiable_plan_delete_removes_both_indices() {
    let changes = vec![(b"k".to_vec(), None)];
    let (pairs, value_set) = plan_verifiable_ops(&changes);
    let h = sha256(b"k").to_vec();
    assert!(matches!(&pairs[0].0,
        WriteOp::Delete { partition: Partition::Keys, key } if key == &b"k".to_vec()));
    assert!(matches!(&pairs[0].1,
        WriteOp::Delete { partition: Partition::KeysByKeyHash, key } if key == &h));
    assert_eq!(value_set[0].1, None);
}

#[test]
fn nonverifiable_plan_touches_only_its_partition() {
    let changes = vec![(b"a".to_vec(), Some(b"1".to_vec())), (b"b".to_vec(), None)];
    let ops = plan_nonverifiable_ops(&changes);
    assert_eq!(ops.len(), 2);
    assert!(matches!(&ops[0],
        WriteOp::Put { partition: Partition::NonVerifiable, key, value }
            if key == &b"a".to_vec() && value == &b"1".to_vec()));
    assert!(matches!(&ops[1],
        WriteOp::Delete { partition: Partition::NonVerifiable, key } if key == &b"b".to_vec()));
}

#[test]
fn node_batch_plan_uses_both_encodings() {
    let storage = SubstoreStorage { config: Arc::new(SubstoreConfig::new("".to_string())) };
    let nodes = vec![(NodeId { version: 3, num_nibbles: 2, path: vec![0x4d] }, b"node".to_vec())];
    let kh = [0x22u8; 32];
    let values = vec![(3u64, kh, Some(b"val".to_vec())), (3u64, [0x33u8; 32], None)];
    let (node_ops, value_ops) = storage.write_node_batch(&nodes, &values);
    assert_eq!(node_ops.len(), 1);
    assert_eq!(value_ops.len(), 2);
    let expected_key =
        DbNodeKey::from(NodeId { version: 3, num_nibbles: 2, path: vec![0x4d] }).encode().unwrap();
    assert!(matches!(&node_ops[0],
        WriteOp::Put { partition: Partition::Nodes, key, value }
            if key == &expected_key && value == &b"node".to_vec()));
    match &value_ops[0] {
        WriteOp::Put { partition, key, value } => {
            assert_eq!(*partition, Partition::Values);
            assert_eq!(&key[0..32], &kh);
            assert_eq!(&key[32..], &[0, 0, 0, 0, 0, 0, 0, 3]);
            assert_eq!(value, &vec![1, 3, 0, 0, 0, b'v', b'a', b'l']);
        },
        other => panic!("expected a put: {:?}", other),
    }
    // a deletion is stored as an explicit tombstone, not a key removal
    assert!(matches!(&value_ops[1],
        WriteOp::Put { partition: Partition::Values, value, .. } if value == &vec![0]));
}

#[test]
fn snapshot_reports_its_version() {
    let snap = SubstoreSnapshot::new(Arc::new(SubstoreConfig::new("".to_string())), 12);
    assert_eq!(snap.version(), 12);
}

#[test]
fn root_hash_defaults_to_all_zero() {
    let snap = SubstoreSnapshot::new(Arc::new(SubstoreConfig::new("".to_string())), 0);
    assert_eq!(snap.root_hash(None), [0u8; 32]);
    assert_eq!(snap.root_hash(Some([7u8; 32])), [7u8; 32]);
}

#[test]
fn missing_root_is_benign_only_at_sentinel() {
    let cfg = Arc::new(SubstoreConfig::new("".to_string()));
    let pre_genesis = SubstoreSnapshot::new(cfg.clone(), u64::MAX);
    assert_eq!(pre_genesis.get_jmt(TreeGetOutcome::MissingRoot).unwrap(), None);
    let real = SubstoreSnapshot::new(cfg, 4);
    let err = real.get_jmt(TreeGetOutcome::MissingRoot).unwrap_err();
    match err {
        StoreError::MissingRoot { version } => assert_eq!(version, 4),
        other => panic!("unexpected error: {:?}", other),
    }
}

#[test]
fn get_jmt_passes_values_and_absence_through() {
    let snap = SubstoreSnapshot::new(Arc::new(SubstoreConfig::new("".to_string())), 1);
    assert_eq!(snap.get_jmt(TreeGetOutcome::Value(b"x".to_vec())).unwrap(), Some(b"x".to_vec()));
    assert_eq!(snap.get_jmt(TreeGetOutcome::Absent).unwrap(), None);
    assert!(matches!(snap.get_jmt(TreeGetOutcome::Failed).unwrap_err(), StoreError::Backend));
}

#[test]
fn duplicate_nullifiers_are_rejected() {
    let distinct = vec![b"n1".to_vec(), b"n2".to_vec(), b"n3".to_vec()];
    assert!(no_duplicate_nullifiers(&distinct).is_ok());
    let duplicated = vec![b"n1".to_vec(), b"n2".to_vec(), b"n1".to_vec()];
    match no_duplicate_nullifiers(&duplicated).unwrap_err() {
        ValidationError::DuplicateNullifier { index } => assert_eq!(index, 2),
    }
    assert!(no_duplicate_nullifiers(&Vec::new()).is_ok());
}
