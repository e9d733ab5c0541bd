use substore::config::SubstoreConfig;
use substore::node_key::{DbNodeKey, NodeId, NodeKind};
use substore::StoreError;

#[test]
fn partition_names_follow_prefix() {
    let cfg = SubstoreConfig::new("ibc".to_string());
    assert_eq!(cfg.prefix, "ibc");
    assert_eq!(cfg.cf_jmt().as_str(), "substore-ibc-jmt");
    assert_eq!(cfg.cf_jmt_keys().as_str(), "substore-ibc-jmt-keys");
    assert_eq!(cfg.cf_jmt_values().as_str(), "substore-ibc-jmt-values");
    assert_eq!(cfg.cf_jmt_keys_by_keyhash().as_str(), "substore-ibc-jmt-keys-by-keyhash");
    assert_eq!(cfg.cf_nonverifiable().as_str(), "substore-ibc-nonverifiable");
}

#[test]
fn root_namespace_has_empty_prefix() {
    let cfg = SubstoreConfig::new("".to_string());
    assert_eq!(cfg.prefix, "");
    assert_eq!(cfg.cf_jmt().as_str(), "substore--jmt");
}

#[test]
fn columns_lists_all_five_in_order() {
    let cfg = SubstoreConfig::new("dex".to_string());
    let cols = cfg.columns();
    assert_eq!(
        cols,
        vec![
            "substore-dex-jmt".to_string(),
            "substore-dex-jmt-keys".to_string(),
            "substore-dex-jmt-values".to_string(),
            "substore-dex-jmt-keys-by-keyhash".to_string(),
            "substore-dex-nonverifiable".to_string(),
        ]
    );
}

#[test]
fn validate_columns_accepts_complete_store() {
    let cfg = SubstoreConfig::new("dex".to_string());
    let mut existing = cfg.columns();
    existing.push("substore-other-jmt".to_string());
    assert!(cfg.validate_columns(&existing).is_ok());
}

#[test]
fn validate_columns_rejects_missing_partition() {
    let cfg = SubstoreConfig::new("dex".to_string());
    let mut existing = cfg.columns();
    existing.remove(2);
    let err = cfg.validate_columns(&existing).unwrap_err();
    match err {
        StoreError::MissingColumn { column } => {
            assert_eq!(column, "substore-dex-jmt-values");
        },
        other => panic!("unexpected error: {:?}", other),
    }
}

#[test]
fn latest_version_of_empty_namespace_is_none() {
    let cfg = SubstoreConfig::new("".to_string());
    assert_eq!(cfg.latest_version(None).unwrap(), None);
}

#[test]
fn latest_version_reads_rightmost_leaf() {
    let cfg = SubstoreConfig::new("".to_string());
    let key = DbNodeKey::from(NodeId { version: 42, num_nibbles: 0, path: vec![] })
        .encode()
        .unwrap();
    assert_eq!(cfg.latest_version(Some((key, NodeKind::Leaf))).unwrap(), Some(42));
}

#[test]
fn latest_version_rightmost_internal_is_no_version() {
    let cfg = SubstoreConfig::new("".to_string());
    let key = DbNodeKey::from(NodeId { version: 42, num_nibbles: 0, path: vec![] })
        .encode()
        .unwrap();
    assert_eq!(cfg.latest_version(Some((key, NodeKind::Internal))).unwrap(), None);
}

#[test]
fn latest_version_corrupt_key_is_an_error() {
    let cfg = SubstoreConfig::new("".to_string());
    let err = cfg.latest_version(Some((vec![1, 2], NodeKind::Leaf))).unwrap_err();
    assert!(matches!(err, StoreError::CorruptNodeKey { .. }));
}
