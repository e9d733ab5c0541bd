//! Versioned value keys and the value-log payload encoding.
//!
//! A value-log entry is keyed by the 32-byte key-hash followed by the
//! big-endian version, so that all versions of one key are contiguous and in
//! version order. The payload is an explicitly encoded optional value:
//! present means a write, absent a tombstone, so historical reads at earlier
//! versions stay untouched by later deletions.

use vstd::prelude::*;

use crate::codec::be64;
use crate::codec::le32;
use crate::codec::lemma_be64_order;
use crate::codec::lemma_le32_round_trip;
use crate::codec::lemma_lex_lt_common_prefix;
use crate::codec::lex_lt;
use crate::codec::push_be64;
use crate::codec::push_le32;
use crate::codec::read_le32;
use crate::codec::u32_of_le4;
use crate::StoreError;

verus! {

/// The storage key of a value-log entry: key-hash, then big-endian version.
pub open spec fn versioned_key(key_hash: Seq<u8>, version: u64) -> Seq<u8> {
    key_hash + be64(version)
}

/// The stored payload of a value-log entry: a tag byte, then for a present
/// value its bytes behind a 32-bit little-endian length prefix. An absent
/// value is an explicit tombstone, not a key deletion.
pub open spec fn value_enc(v: Option<Seq<u8>>) -> Seq<u8> {
    match v {
        Option::None => seq![0u8],
        Option::Some(b) => seq![1u8] + le32(b.len() as u32) + b,
    }
}

/// Parses a stored payload back. Mirrors strict deserialization: the tag
/// must be 0 or 1, the length prefix must match, and every byte must be
/// consumed.
pub open spec fn parse_value(s: Seq<u8>) -> Option<Option<Seq<u8>>> {
    if s.len() == 0 {
        Option::None
    } else if s[0] == 0 {
        if s.len() == 1 {
            Option::Some(Option::None)
        } else {
            Option::None
        }
    } else if s[0] == 1 {
        if s.len() < 5 {
            Option::None
        } else {
            let len = u32_of_le4(s.subrange(1, 5));
            if s.len() - 5 == len {
                Option::Some(Option::Some(s.skip(5)))
            } else {
                Option::None
            }
        }
    } else {
        Option::None
    }
}

/// The sequence view of an optional byte vector.
pub open spec fn opt_bytes_view(v: Option<Vec<u8>>) -> Option<Seq<u8>> {
    match v {
        Option::None => Option::None,
        Option::Some(b) => Option::Some(b@),
    }
}

/// Round trip: parsing an encoded payload yields the optional value back.
pub proof fn lemma_value_round_trip(v: Option<Seq<u8>>)
    requires
        v matches Some(b) ==> b.len() <= u32::MAX,
    ensures
        parse_value(value_enc(v)) == Some(v),
{
    match v {
        Option::None => {},
        Option::Some(b) => {
            let s = value_enc(v);
            assert(s.subrange(1, 5) =~= le32(b.len() as u32));
            assert(s.skip(5) =~= b);
            lemma_le32_round_trip(b.len() as u32);
        },
    }
}

/// A (version, key-hash) pair addressing one value-log entry.
#[derive(Debug)]
pub struct VersionedKeyHash {
    /// The 32-byte hash of the logical key.
    pub key_hash: [u8; 32],
    /// The version the entry was written at.
    pub version: u64,
}

impl VersionedKeyHash {
    /// Builds the pair.
    pub fn new(version: u64, key_hash: [u8; 32]) -> (r: VersionedKeyHash)
        ensures
            r.version == version,
            r.key_hash == key_hash,
    {
        VersionedKeyHash { key_hash, version }
    }

    /// Encodes the storage key: the 32 hash bytes, then the version in
    /// big-endian, so entries for one key-hash sort by version.
    pub fn encode(&self) -> (r: Vec<u8>)
        ensures
            r@ == versioned_key(self.key_hash@, self.version),
    {
        let mut bytes: Vec<u8> = Vec::new();
        let mut i: usize = 0;
        while i < 32
            invariant
                i <= 32,
                bytes@ == self.key_hash@.subrange(0, i as int),
            decreases 32 - i,
        {
            bytes.push(self.key_hash[i]);
            proof {
                assert(self.key_hash@.subrange(0, i + 1) =~= self.key_hash@.subrange(0, i as int)
                    + seq![self.key_hash@[i as int]]);
            }
            i = i + 1;
        }
        proof {
            assert(self.key_hash@.subrange(0, 32) =~= self.key_hash@);
        }
        push_be64(&mut bytes, self.version);
        bytes
    }
}

/// The plan for reading the newest value at or before a version: an
/// exact-match probe (only for the maximum sentinel version, which no
/// exclusive upper bound can admit), and the inclusive-lower /
/// exclusive-upper bounds of the range scan.
#[derive(Debug)]
pub struct ValueQuery {
    /// Key to probe by exact match first; set exactly when the requested
    /// version is the maximum sentinel.
    pub probe_max: Option<Vec<u8>>,
    /// Inclusive lower bound of the range scan: the key-hash at version 0.
    pub lower: Vec<u8>,
    /// Exclusive upper bound: the key-hash one past the requested version
    /// (saturating at the sentinel).
    pub upper: Vec<u8>,
}

/// Plans the bounded reverse scan for "newest value whose version is at most
/// `max_version`". The scan takes the last entry of
/// `[key_hash || 0, key_hash || max_version + 1)`; when `max_version` is the
/// maximum sentinel, no encodable exclusive upper bound lies beyond it, so an
/// exact-match probe of the sentinel key comes first.
pub fn value_query(key_hash: &[u8; 32], max_version: u64) -> (q: ValueQuery)
    ensures
        q.lower@ == versioned_key(key_hash@, 0),
        q.upper@ == versioned_key(
            key_hash@,
            if max_version == u64::MAX {
                u64::MAX
            } else {
                (max_version + 1) as u64
            },
        ),
        max_version == u64::MAX ==> (q.probe_max matches Some(p) && p@ == versioned_key(
            key_hash@,
            u64::MAX,
        )),
        max_version != u64::MAX ==> q.probe_max is None,
{
    let probe_max: Option<Vec<u8>> = if max_version == u64::MAX {
        Some(VersionedKeyHash::new(u64::MAX, *key_hash).encode())
    } else {
        None
    };
    let upper_version: u64 = if max_version == u64::MAX {
        u64::MAX
    } else {
        max_version + 1
    };
    let lower = VersionedKeyHash::new(0, *key_hash).encode();
    let upper = VersionedKeyHash::new(upper_version, *key_hash).encode();
    ValueQuery { probe_max, lower, upper }
}

/// The scan bounds admit exactly the versions at or below the requested one:
/// for `max_version` below the sentinel, a value-log key of the same
/// key-hash lies in `[lower, upper)` if and only if its version is at most
/// `max_version`; and the lower bound never excludes anything.
pub proof fn lemma_value_query_bounds(key_hash: Seq<u8>, max_version: u64, ver: u64)
    requires
        max_version < u64::MAX,
    ensures
        lex_lt(versioned_key(key_hash, ver), versioned_key(key_hash, (max_version + 1) as u64))
            == (ver <= max_version),
        !lex_lt(versioned_key(key_hash, ver), versioned_key(key_hash, 0)),
{
    lemma_lex_lt_common_prefix(key_hash, be64(ver), be64((max_version + 1) as u64));
    lemma_be64_order(ver, (max_version + 1) as u64);
    lemma_lex_lt_common_prefix(key_hash, be64(ver), be64(0));
    lemma_be64_order(ver, 0);
}

/// Encodes a value-log payload: tag 1 and a length-prefixed body for a
/// write, tag 0 alone for a tombstone. The length bound is forced by the
/// 32-bit length prefix.
pub fn encode_value(v: &Option<Vec<u8>>) -> (r: Vec<u8>)
    requires
        v matches Some(b) ==> b@.len() <= u32::MAX,
    ensures
        r@ == value_enc(opt_bytes_view(*v)),
{
    match v {
        None => {
            let mut bytes: Vec<u8> = Vec::new();
            bytes.push(0u8);
            proof {
                assert(bytes@ =~= value_enc(opt_bytes_view(*v)));
            }
            bytes
        },
        Some(b) => {
            let mut bytes: Vec<u8> = Vec::new();
            bytes.push(1u8);
            push_le32(&mut bytes, b.len() as u32);
            let mut i: usize = 0;
            while i < b.len()
                invariant
                    i <= b@.len(),
                    b@.len() <= u32::MAX,
                    bytes@ == seq![1u8] + le32(b@.len() as u32) + b@.subrange(0, i as int),
                decreases b@.len() - i,
            {
                bytes.push(b[i]);
                proof {
                    assert(b@.subrange(0, i + 1) =~= b@.subrange(0, i as int) + seq![
                        b@[i as int],
                    ]);
                }
                i = i + 1;
            }
            proof {
                assert(b@.subrange(0, b@.len() as int) =~= b@);
                assert(bytes@ =~= value_enc(opt_bytes_view(*v)));
            }
            bytes
        },
    }
}

/// Decodes a stored value-log payload; anything but a strict encoding of an
/// optional value is corruption.
pub fn decode_value(bytes: &Vec<u8>) -> (r: Result<Option<Vec<u8>>, StoreError>)
    ensures
        match r {
            Ok(v) => parse_value(bytes@) == Some(opt_bytes_view(v)),
            Err(e) => parse_value(bytes@) is None && e is CorruptValue,
        },
{
    let n: usize = bytes.len();
    if n == 0 {
        return Err(StoreError::CorruptValue { len: n });
    }
    let tag = bytes[0];
    if tag == 0 {
        if n == 1 {
            Ok(None)
        } else {
            Err(StoreError::CorruptValue { len: n })
        }
    } else if tag == 1 {
        if n < 5 {
            return Err(StoreError::CorruptValue { len: n });
        }
        let len = read_le32(bytes, 1);
        if (n - 5) as u64 != len as u64 {
            return Err(StoreError::CorruptValue { len: n });
        }
        let mut body: Vec<u8> = Vec::new();
        let mut i: usize = 5;
        while i < n
            invariant
                5 <= i <= n,
                n == bytes@.len(),
                body@ == bytes@.subrange(5, i as int),
            decreases n - i,
        {
            body.push(bytes[i]);
            proof {
                assert(bytes@.subrange(5, i + 1) =~= bytes@.subrange(5, i as int) + seq![
                    bytes@[i as int],
                ]);
            }
            i = i + 1;
        }
        proof {
            assert(body@ =~= bytes@.skip(5));
        }
        Ok(Some(body))
    } else {
        Err(StoreError::CorruptValue { len: n })
    }
}

} // verus!
