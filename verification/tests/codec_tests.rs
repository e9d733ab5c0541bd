use substore::node_key::{DbNodeKey, NodeId};
use substore::value_key::{decode_value, encode_value, value_query, VersionedKeyHash};
use substore::StoreError;

fn node_id(version: u64, num_nibbles: u64, path: Vec<u8>) -> NodeId {
    NodeId { version, num_nibbles, path }
}

#[test]
fn node_key_round_trip() {
    let id = node_id(7, 3, vec![0x12, 0xa0]);
    let encoded = DbNodeKey::from(id).encode().unwrap();
    let decoded = DbNodeKey::decode(&encoded).unwrap().into_inner();
    assert_eq!(decoded.version, 7);
    assert_eq!(decoded.num_nibbles, 3);
    assert_eq!(decoded.path, vec![0x12, 0xa0]);
}

#[test]
fn node_key_round_trip_empty_path() {
    let id = node_id(0, 0, vec![]);
    let encoded = DbNodeKey::from(id).encode().unwrap();
    let decoded = DbNodeKey::decode(&encoded).unwrap().into_inner();
    assert_eq!(decoded.version, 0);
    assert_eq!(decoded.num_nibbles, 0);
    assert_eq!(decoded.path, Vec::<u8>::new());
}

#[test]
fn node_key_layout_is_big_endian_version_then_body() {
    let id = node_id(0x0102030405060708, 2, vec![0xab]);
    let encoded = DbNodeKey::from(id).encode().unwrap();
    // big-endian version prefix
    assert_eq!(&encoded[0..8], &[1, 2, 3, 4, 5, 6, 7, 8]);
    // native serialization: little-endian version, nibble count, length-prefixed path
    assert_eq!(&encoded[8..16], &[8, 7, 6, 5, 4, 3, 2, 1]);
    assert_eq!(&encoded[16..24], &[2, 0, 0, 0, 0, 0, 0, 0]);
    assert_eq!(&encoded[24..28], &[1, 0, 0, 0]);
    assert_eq!(&encoded[28..], &[0xab]);
}

#[test]
fn node_key_order_follows_version() {
    let lo = DbNodeKey::from(node_id(1, 64, vec![0xff; 32])).encode().unwrap();
    let hi = DbNodeKey::from(node_id(2, 0, vec![])).encode().unwrap();
    assert!(lo < hi);
}

#[test]
fn node_key_decode_too_short_is_corrupt() {
    let err = DbNodeKey::decode(&vec![1, 2, 3]).unwrap_err();
    assert!(matches!(err, StoreError::CorruptNodeKey { .. }));
}

#[test]
fn node_key_decode_trailing_bytes_is_corrupt() {
    let mut encoded = DbNodeKey::from(node_id(1, 2, vec![0x34])).encode().unwrap();
    encoded.push(0);
    let err = DbNodeKey::decode(&encoded).unwrap_err();
    assert!(matches!(err, StoreError::CorruptNodeKey { .. }));
}

#[test]
fn node_key_encoding_matches_tree_native_serialization() {
    // The body after the big-endian prefix must be exactly the tree's own
    // serialization of the identifier, or stored data would not interoperate.
    let id = node_id(5, 2, vec![0x7f]);
    let encoded = DbNodeKey::from(id).encode().unwrap();
    let native: jmt::storage::NodeKey =
        borsh::from_slice(&encoded[8..]).expect("body must parse as a native node key");
    assert_eq!(native.version(), 5);
    assert_eq!(native.nibble_path().num_nibbles(), 2);
    assert_eq!(borsh::to_vec(&native).unwrap(), &encoded[8..]);
}

#[test]
fn versioned_key_is_hash_then_big_endian_version() {
    let kh = [0xabu8; 32];
    let encoded = VersionedKeyHash::new(5, kh).encode();
    assert_eq!(&encoded[0..32], &[0xab; 32]);
    assert_eq!(&encoded[32..], &[0, 0, 0, 0, 0, 0, 0, 5]);
}

#[test]
fn value_payload_round_trip() {
    let some = encode_value(&Some(vec![1, 2, 3]));
    assert_eq!(some, vec![1, 3, 0, 0, 0, 1, 2, 3]);
    assert_eq!(decode_value(&some).unwrap(), Some(vec![1, 2, 3]));
    let none = encode_value(&None);
    assert_eq!(none, vec![0]);
    assert_eq!(decode_value(&none).unwrap(), None);
}

#[test]
fn value_payload_matches_native_serialization() {
    // The payload layout must be byte-compatible with existing stored
    // data: the standard serialization of an optional byte vector.
    let ours = encode_value(&Some(vec![9, 8, 7]));
    let native = borsh::to_vec(&Some(vec![9u8, 8, 7])).unwrap();
    assert_eq!(ours, native);
    assert_eq!(encode_value(&None), borsh::to_vec(&Option::<Vec<u8>>::None).unwrap());
}

#[test]
fn value_payload_bad_tag_is_corrupt() {
    assert!(matches!(decode_value(&vec![2]).unwrap_err(), StoreError::CorruptValue { .. }));
    assert!(matches!(decode_value(&vec![]).unwrap_err(), StoreError::CorruptValue { .. }));
    assert!(matches!(decode_value(&vec![0, 0]).unwrap_err(), StoreError::CorruptValue { .. }));
    assert!(matches!(
        decode_value(&vec![1, 2, 0, 0, 0, 9]).unwrap_err(),
        StoreError::CorruptValue { .. }
    ));
}

#[test]
fn value_query_bounds_and_sentinel_probe() {
    let kh = [0x11u8; 32];
    let q = value_query(&kh, 9);
    assert!(q.probe_max.is_none());
    assert_eq!(&q.lower[0..32], &kh);
    assert_eq!(&q.lower[32..], &[0u8; 8]);
    assert_eq!(&q.upper[32..], &[0, 0, 0, 0, 0, 0, 0, 10]);
    let q_max = value_query(&kh, u64::MAX);
    let probe = q_max.probe_max.expect("sentinel version needs an exact probe");
    assert_eq!(&probe[32..], &[0xff; 8]);
    assert_eq!(&q_max.upper[32..], &[0xff; 8]);
}
