//! Node identifiers and their order-preserving database encoding.
//!
//! A node identifier is a (version, nibble-path) pair. Its database key is
//! the fixed-width big-endian version followed by the tree's native
//! serialization of the identifier, so that iterating the node partition in
//! byte order visits nodes in ascending version order and "seek to last"
//! lands on the highest version.

use vstd::prelude::*;

use crate::codec::be64;
use crate::codec::le32;
use crate::codec::le64;
use crate::codec::lex_lt;
use crate::codec::lemma_be64_prefix_order;
use crate::codec::lemma_le32_round_trip;
use crate::codec::lemma_le64_round_trip;
use crate::codec::push_be64;
use crate::codec::push_le32;
use crate::codec::push_le64;
use crate::codec::read_le32;
use crate::codec::read_le64;
use crate::codec::u32_of_le4;
use crate::codec::u64_of_le8;
use crate::StoreError;

verus! {

/// One tree node identifier: the version at which the node was created, and
/// the nibble path (4-bit steps from the root), packed two nibbles per byte.
#[derive(Debug)]
pub struct NodeId {
    /// The version at which the node was created.
    pub version: u64,
    /// How many nibbles of `path` are meaningful.
    pub num_nibbles: u64,
    /// The packed nibble path; if `num_nibbles` is odd, the low half of the
    /// last byte is zero.
    pub path: Vec<u8>,
}

impl NodeId {
    /// A structurally valid identifier: the path stores exactly the packed
    /// nibbles, and a tree keyed by 32-byte hashes is at most 64 nibbles
    /// deep.
    pub open spec fn wf(self) -> bool {
        &&& self.num_nibbles <= 64
        &&& self.path@.len() == (self.num_nibbles + 1) / 2
        &&& self.num_nibbles % 2 == 1 ==> self.path@[self.path@.len() - 1] & 0x0f == 0
    }
}

/// The tree's native serialization of a node identifier: the version and the
/// nibble count as fixed-width little-endian integers, then the path bytes
/// behind a 32-bit length prefix.
pub open spec fn node_id_body(version: u64, num_nibbles: u64, path: Seq<u8>) -> Seq<u8>
    recommends
        path.len() <= u32::MAX,
{
    le64(version) + le64(num_nibbles) + le32(path.len() as u32) + path
}

/// The full database key of a node: big-endian version, then the native
/// serialization of the identifier.
pub open spec fn node_key_enc(version: u64, num_nibbles: u64, path: Seq<u8>) -> Seq<u8>
    recommends
        path.len() <= u32::MAX,
{
    be64(version) + node_id_body(version, num_nibbles, path)
}

/// Parses the native serialization back into an identifier. Mirrors strict
/// deserialization: every byte must be consumed, and the length prefix must
/// match exactly.
pub open spec fn parse_node_body(s: Seq<u8>) -> Option<(u64, u64, Seq<u8>)> {
    if s.len() < 20 {
        None
    } else {
        let version = u64_of_le8(s.subrange(0, 8));
        let num_nibbles = u64_of_le8(s.subrange(8, 16));
        let len = u32_of_le4(s.subrange(16, 20));
        if s.len() - 20 == len {
            Some((version, num_nibbles, s.skip(20)))
        } else {
            None
        }
    }
}

/// Round trip: parsing the native serialization of an identifier yields the
/// identifier back, for every version, nibble count and encodable path.
pub proof fn lemma_node_body_round_trip(version: u64, num_nibbles: u64, path: Seq<u8>)
    requires
        path.len() <= u32::MAX,
    ensures
        parse_node_body(node_id_body(version, num_nibbles, path)) == Some(
            (version, num_nibbles, path),
        ),
{
    let s = node_id_body(version, num_nibbles, path);
    assert(s.subrange(0, 8) =~= le64(version));
    assert(s.subrange(8, 16) =~= le64(num_nibbles));
    assert(s.subrange(16, 20) =~= le32(path.len() as u32));
    assert(s.skip(20) =~= path);
    lemma_le64_round_trip(version);
    lemma_le64_round_trip(num_nibbles);
    lemma_le32_round_trip(path.len() as u32);
}

/// Round trip through the full database key: stripping the fixed-width
/// version prefix and parsing the remainder yields the identifier back.
pub proof fn lemma_node_key_round_trip(version: u64, num_nibbles: u64, path: Seq<u8>)
    requires
        path.len() <= u32::MAX,
    ensures
        node_key_enc(version, num_nibbles, path).len() >= 8,
        parse_node_body(node_key_enc(version, num_nibbles, path).skip(8)) == Some(
            (version, num_nibbles, path),
        ),
{
    assert(node_key_enc(version, num_nibbles, path).skip(8) =~= node_id_body(
        version,
        num_nibbles,
        path,
    ));
    lemma_node_body_round_trip(version, num_nibbles, path);
}

/// Order preservation: node keys with a smaller version sort strictly
/// earlier in byte order, whatever their nibble paths.
pub proof fn lemma_node_key_order(
    v1: u64,
    n1: u64,
    p1: Seq<u8>,
    v2: u64,
    n2: u64,
    p2: Seq<u8>,
)
    requires
        v1 < v2,
    ensures
        lex_lt(node_key_enc(v1, n1, p1), node_key_enc(v2, n2, p2)),
{
    lemma_be64_prefix_order(v1, v2, node_id_body(v1, n1, p1), node_id_body(v2, n2, p2));
}

/// A node identifier together with its order-preserving database encoding.
#[derive(Debug)]
pub struct DbNodeKey {
    /// The wrapped node identifier.
    pub id: NodeId,
}

impl DbNodeKey {
    /// Wraps a node identifier.
    pub fn from(node_id: NodeId) -> (r: DbNodeKey)
        ensures
            r.id == node_id,
    {
        DbNodeKey { id: node_id }
    }

    /// Returns the wrapped node identifier.
    pub fn into_inner(self) -> (r: NodeId)
        ensures
            r == self.id,
    {
        self.id
    }

    /// Encodes the key as stored in the node partition: the big-endian
    /// version, then the native serialization of the identifier. The length
    /// bound is forced by the 32-bit length prefix of the serialization.
    pub fn encode(&self) -> (r: Result<Vec<u8>, StoreError>)
        requires
            self.id.path@.len() <= u32::MAX,
        ensures
            r matches Ok(bytes) && bytes@ == node_key_enc(
                self.id.version,
                self.id.num_nibbles,
                self.id.path@,
            ),
    {
        let mut bytes: Vec<u8> = Vec::new();
        push_be64(&mut bytes, self.id.version);
        push_le64(&mut bytes, self.id.version);
        push_le64(&mut bytes, self.id.num_nibbles);
        push_le32(&mut bytes, self.id.path.len() as u32);
        let mut i: usize = 0;
        while i < self.id.path.len()
            invariant
                i <= self.id.path@.len(),
                self.id.path@.len() <= u32::MAX,
                bytes@ == be64(self.id.version) + le64(self.id.version) + le64(
                    self.id.num_nibbles,
                ) + le32(self.id.path@.len() as u32) + self.id.path@.subrange(0, i as int),
            decreases self.id.path@.len() - i,
        {
            bytes.push(self.id.path[i]);
            proof {
                assert(self.id.path@.subrange(0, i + 1) =~= self.id.path@.subrange(0, i as int)
                    + seq![self.id.path@[i as int]]);
            }
            i = i + 1;
        }
        proof {
            assert(self.id.path@.subrange(0, self.id.path@.len() as int) =~= self.id.path@);
            assert(bytes@ =~= node_key_enc(self.id.version, self.id.num_nibbles, self.id.path@));
        }
        Ok(bytes)
    }

    /// Decodes a stored node key. The fixed-width version prefix is
    /// stripped; the identifier, its version included, is read back from the
    /// native serialization that follows. A buffer shorter than the version
    /// prefix, or a remainder that does not parse exactly, is corruption.
    pub fn decode(bytes: &Vec<u8>) -> (r: Result<DbNodeKey, StoreError>)
        ensures
            match r {
                Ok(k) => bytes@.len() >= 8 && parse_node_body(bytes@.skip(8)) == Some(
                    (k.id.version, k.id.num_nibbles, k.id.path@),
                ),
                Err(e) => (bytes@.len() < 8 || parse_node_body(bytes@.skip(8)) is None)
                    && e is CorruptNodeKey,
            },
    {
        let n: usize = bytes.len();
        if n < 8 {
            return Err(StoreError::CorruptNodeKey { len: n });
        }
        if n < 28 {
            return Err(StoreError::CorruptNodeKey { len: n });
        }
        let version = read_le64(bytes, 8);
        let num_nibbles = read_le64(bytes, 16);
        let len = read_le32(bytes, 24);
        proof {
            assert(bytes@.skip(8).subrange(0, 8) =~= bytes@.subrange(8, 16));
            assert(bytes@.skip(8).subrange(8, 16) =~= bytes@.subrange(16, 24));
            assert(bytes@.skip(8).subrange(16, 20) =~= bytes@.subrange(24, 28));
        }
        if (n - 28) as u64 != len as u64 {
            return Err(StoreError::CorruptNodeKey { len: n });
        }
        let mut path: Vec<u8> = Vec::new();
        let mut i: usize = 28;
        while i < n
            invariant
                28 <= i <= n,
                n == bytes@.len(),
                path@ == bytes@.subrange(28, i as int),
            decreases n - i,
        {
            path.push(bytes[i]);
            proof {
                assert(bytes@.subrange(28, i + 1) =~= bytes@.subrange(28, i as int) + seq![
                    bytes@[i as int],
                ]);
            }
            i = i + 1;
        }
        proof {
            assert(path@ =~= bytes@.skip(8).skip(20));
        }
        Ok(DbNodeKey { id: NodeId { version, num_nibbles, path } })
    }
}

/// What kind of tree node a stored entry deserialized to.
#[derive(Debug, PartialEq, Eq, Structural, Clone, Copy)]
pub enum NodeKind {
    /// A leaf node carrying a key-hash and value-hash.
    Leaf,
    /// An internal node.
    Internal,
    /// The empty-tree marker node.
    Null,
}

/// Interprets the last entry of the node partition, as found by seeking to
/// the last key: the highest-version node. If the entry is a leaf, its
/// identifier is the rightmost leaf and carries the latest committed
/// version; an empty partition means no version was ever committed; a
/// rightmost entry that is not a leaf is treated as "no committed version"
/// rather than a fault, since correct writes do not produce it. A key that
/// does not decode is corruption and propagates.
pub fn interpret_rightmost_entry(rightmost: Option<(Vec<u8>, NodeKind)>) -> (r: Result<
    Option<NodeId>,
    StoreError,
>)
    ensures
        rightmost is None ==> (r matches Ok(v) && v is None),
        rightmost matches Some(p) ==> (if p.0@.len() >= 8 && parse_node_body(p.0@.skip(8))
            is Some {
            {
                let t = parse_node_body(p.0@.skip(8)).unwrap();
                r matches Ok(v) && (if p.1 is Leaf {
                    v matches Some(id) && id.version == t.0 && id.num_nibbles == t.1 && id.path@
                        == t.2
                } else {
                    v is None
                })
            }
        } else {
            r matches Err(e) && e is CorruptNodeKey
        }),
{
    match rightmost {
        None => Ok(None),
        Some((key_bytes, kind)) => {
            let decoded = match DbNodeKey::decode(&key_bytes) {
                Ok(k) => k,
                Err(e) => {
                    return Err(e);
                },
            };
            match kind {
                NodeKind::Leaf => Ok(Some(decoded.into_inner())),
                _ => Ok(None),
            }
        },
    }
}

} // verus!
