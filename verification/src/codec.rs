//! Byte-level encodings shared by the key layouts: fixed-width big-endian and
//! little-endian integers, and the lexicographic byte order under which the
//! backing store iterates.

use vstd::prelude::*;

verus! {

/// Big-endian encoding of a 64-bit version: the most significant byte first,
/// so that encoded keys sort by version under lexicographic iteration.
pub open spec fn be64(v: u64) -> Seq<u8> {
    seq![
        ((v >> 56) & 0xff) as u8,
        ((v >> 48) & 0xff) as u8,
        ((v >> 40) & 0xff) as u8,
        ((v >> 32) & 0xff) as u8,
        ((v >> 24) & 0xff) as u8,
        ((v >> 16) & 0xff) as u8,
        ((v >> 8) & 0xff) as u8,
        (v & 0xff) as u8,
    ]
}

/// Little-endian encoding of a 64-bit integer, the least significant byte
/// first: the fixed-width integer layout of the tree's native serialization.
pub open spec fn le64(v: u64) -> Seq<u8> {
    seq![
        (v & 0xff) as u8,
        ((v >> 8) & 0xff) as u8,
        ((v >> 16) & 0xff) as u8,
        ((v >> 24) & 0xff) as u8,
        ((v >> 32) & 0xff) as u8,
        ((v >> 40) & 0xff) as u8,
        ((v >> 48) & 0xff) as u8,
        ((v >> 56) & 0xff) as u8,
    ]
}

/// Little-endian encoding of a 32-bit length prefix.
pub open spec fn le32(v: u32) -> Seq<u8> {
    seq![
        (v & 0xff) as u8,
        ((v >> 8) & 0xff) as u8,
        ((v >> 16) & 0xff) as u8,
        ((v >> 24) & 0xff) as u8,
    ]
}

/// The 64-bit integer read back from eight little-endian bytes.
pub open spec fn u64_of_le8(s: Seq<u8>) -> u64
    recommends
        s.len() == 8,
{
    ((s[0] as u64) | ((s[1] as u64) << 8) | ((s[2] as u64) << 16) | ((s[3] as u64) << 24)
        | ((s[4] as u64) << 32) | ((s[5] as u64) << 40) | ((s[6] as u64) << 48) | ((s[7]
        as u64) << 56)) as u64
}

/// The 32-bit integer read back from four little-endian bytes.
pub open spec fn u32_of_le4(s: Seq<u8>) -> u32
    recommends
        s.len() == 4,
{
    ((s[0] as u32) | ((s[1] as u32) << 8) | ((s[2] as u32) << 16) | ((s[3] as u32) << 24)) as u32
}

/// Strict lexicographic order on byte strings, as the backing store compares
/// keys: a proper prefix sorts before any extension of it.
pub open spec fn lex_lt(a: Seq<u8>, b: Seq<u8>) -> bool
    decreases a.len(),
{
    if b.len() == 0 {
        false
    } else if a.len() == 0 {
        true
    } else if a[0] < b[0] {
        true
    } else if a[0] > b[0] {
        false
    } else {
        lex_lt(a.drop_first(), b.drop_first())
    }
}

proof fn lemma_byte_mask(x: u64)
    ensures
        x & 0xff < 256,
{
    assert(x & 0xff < 256) by (bit_vector);
}

proof fn lemma_byte_mask32(x: u32)
    ensures
        x & 0xff < 256,
{
    assert(x & 0xff < 256) by (bit_vector);
}

/// Reading back the little-endian bytes of a 64-bit integer yields the
/// integer itself.
pub proof fn lemma_le64_round_trip(v: u64)
    ensures
        u64_of_le8(le64(v)) == v,
{
    assert((((v & 0xff) as u8) as u64) | ((((v >> 8) & 0xff) as u8) as u64) << 8 | ((((v >> 16)
        & 0xff) as u8) as u64) << 16 | ((((v >> 24) & 0xff) as u8) as u64) << 24 | ((((v >> 32)
        & 0xff) as u8) as u64) << 32 | ((((v >> 40) & 0xff) as u8) as u64) << 40 | ((((v >> 48)
        & 0xff) as u8) as u64) << 48 | ((((v >> 56) & 0xff) as u8) as u64) << 56 == v)
        by (bit_vector);
}

/// Reading back the little-endian bytes of a 32-bit integer yields the
/// integer itself.
pub proof fn lemma_le32_round_trip(v: u32)
    ensures
        u32_of_le4(le32(v)) == v,
{
    assert((((v & 0xff) as u8) as u32) | ((((v >> 8) & 0xff) as u8) as u32) << 8 | ((((v >> 16)
        & 0xff) as u8) as u32) << 16 | ((((v >> 24) & 0xff) as u8) as u32) << 24 == v)
        by (bit_vector);
}

/// If two byte strings agree up to position `i` and differ there in `a`'s
/// favour, then `a` sorts strictly before `b`.
pub proof fn lemma_lex_lt_from_diff(a: Seq<u8>, b: Seq<u8>, i: int)
    requires
        0 <= i < a.len(),
        i < b.len(),
        forall|j: int| 0 <= j < i ==> a[j] == b[j],
        a[i] < b[i],
    ensures
        lex_lt(a, b),
    decreases i,
{
    if i > 0 {
        let a1 = a.drop_first();
        let b1 = b.drop_first();
        assert forall|j: int| 0 <= j < i - 1 implies a1[j] == b1[j] by {
            assert(a[j + 1] == b[j + 1]);
        }
        lemma_lex_lt_from_diff(a1, b1, i - 1);
    }
}

/// Order preservation of the big-endian version prefix: for versions
/// `v1 < v2`, the prefixed encodings compare bytewise in the same order,
/// regardless of what follows the prefix.
pub proof fn lemma_be64_prefix_order(v1: u64, v2: u64, r1: Seq<u8>, r2: Seq<u8>)
    requires
        v1 < v2,
    ensures
        lex_lt(be64(v1) + r1, be64(v2) + r2),
{
    let a = be64(v1) + r1;
    let b = be64(v2) + r2;
    assert(forall|j: int| 0 <= j < 8 ==> a[j] == be64(v1)[j] && b[j] == be64(v2)[j]);
    if a[0] != b[0] {
        assert((((v1 >> 56) & 0xff) as u8) != (((v2 >> 56) & 0xff) as u8) && v1 < v2 ==> (((v1 >> 56) & 0xff) as u8) < (((v2 >> 56) & 0xff) as u8)) by (bit_vector);
        lemma_lex_lt_from_diff(a, b, 0);
    } else if a[1] != b[1] {
        assert((((v1 >> 56) & 0xff) as u8) == (((v2 >> 56) & 0xff) as u8) && (((v1 >> 48) & 0xff) as u8) != (((v2 >> 48) & 0xff) as u8) && v1 < v2 ==> (((v1 >> 48) & 0xff) as u8) < (((v2 >> 48) & 0xff) as u8)) by (bit_vector);
        lemma_lex_lt_from_diff(a, b, 1);
    } else if a[2] != b[2] {
        assert((((v1 >> 56) & 0xff) as u8) == (((v2 >> 56) & 0xff) as u8) && (((v1 >> 48) & 0xff) as u8) == (((v2 >> 48) & 0xff) as u8) && (((v1 >> 40) & 0xff) as u8) != (((v2 >> 40) & 0xff) as u8) && v1 < v2 ==> (((v1 >> 40) & 0xff) as u8) < (((v2 >> 40) & 0xff) as u8)) by (bit_vector);
        lemma_lex_lt_from_diff(a, b, 2);
    } else if a[3] != b[3] {
        assert((((v1 >> 56) & 0xff) as u8) == (((v2 >> 56) & 0xff) as u8) && (((v1 >> 48) & 0xff) as u8) == (((v2 >> 48) & 0xff) as u8) && (((v1 >> 40) & 0xff) as u8) == (((v2 >> 40) & 0xff) as u8) && (((v1 >> 32) & 0xff) as u8) != (((v2 >> 32) & 0xff) as u8) && v1 < v2 ==> (((v1 >> 32) & 0xff) as u8) < (((v2 >> 32) & 0xff) as u8)) by (bit_vector);
        lemma_lex_lt_from_diff(a, b, 3);
    } else if a[4] != b[4] {
        assert((((v1 >> 56) & 0xff) as u8) == (((v2 >> 56) & 0xff) as u8) && (((v1 >> 48) & 0xff) as u8) == (((v2 >> 48) & 0xff) as u8) && (((v1 >> 40) & 0xff) as u8) == (((v2 >> 40) & 0xff) as u8) && (((v1 >> 32) & 0xff) as u8) == (((v2 >> 32) & 0xff) as u8) && (((v1 >> 24) & 0xff) as u8) != (((v2 >> 24) & 0xff) as u8) && v1 < v2 ==> (((v1 >> 24) & 0xff) as u8) < (((v2 >> 24) & 0xff) as u8)) by (bit_vector);
        lemma_lex_lt_from_diff(a, b, 4);
    } else if a[5] != b[5] {
        assert((((v1 >> 56) & 0xff) as u8) == (((v2 >> 56) & 0xff) as u8) && (((v1 >> 48) & 0xff) as u8) == (((v2 >> 48) & 0xff) as u8) && (((v1 >> 40) & 0xff) as u8) == (((v2 >> 40) & 0xff) as u8) && (((v1 >> 32) & 0xff) as u8) == (((v2 >> 32) & 0xff) as u8) && (((v1 >> 24) & 0xff) as u8) == (((v2 >> 24) & 0xff) as u8) && (((v1 >> 16) & 0xff) as u8) != (((v2 >> 16) & 0xff) as u8) && v1 < v2 ==> (((v1 >> 16) & 0xff) as u8) < (((v2 >> 16) & 0xff) as u8)) by (bit_vector);
        lemma_lex_lt_from_diff(a, b, 5);
    } else if a[6] != b[6] {
        assert((((v1 >> 56) & 0xff) as u8) == (((v2 >> 56) & 0xff) as u8) && (((v1 >> 48) & 0xff) as u8) == (((v2 >> 48) & 0xff) as u8) && (((v1 >> 40) & 0xff) as u8) == (((v2 >> 40) & 0xff) as u8) && (((v1 >> 32) & 0xff) as u8) == (((v2 >> 32) & 0xff) as u8) && (((v1 >> 24) & 0xff) as u8) == (((v2 >> 24) & 0xff) as u8) && (((v1 >> 16) & 0xff) as u8) == (((v2 >> 16) & 0xff) as u8) && (((v1 >> 8) & 0xff) as u8) != (((v2 >> 8) & 0xff) as u8) && v1 < v2 ==> (((v1 >> 8) & 0xff) as u8) < (((v2 >> 8) & 0xff) as u8)) by (bit_vector);
        lemma_lex_lt_from_diff(a, b, 6);
    } else if a[7] != b[7] {
        assert((((v1 >> 56) & 0xff) as u8) == (((v2 >> 56) & 0xff) as u8) && (((v1 >> 48) & 0xff) as u8) == (((v2 >> 48) & 0xff) as u8) && (((v1 >> 40) & 0xff) as u8) == (((v2 >> 40) & 0xff) as u8) && (((v1 >> 32) & 0xff) as u8) == (((v2 >> 32) & 0xff) as u8) && (((v1 >> 24) & 0xff) as u8) == (((v2 >> 24) & 0xff) as u8) && (((v1 >> 16) & 0xff) as u8) == (((v2 >> 16) & 0xff) as u8) && (((v1 >> 8) & 0xff) as u8) == (((v2 >> 8) & 0xff) as u8) && ((v1 & 0xff) as u8) != ((v2 & 0xff) as u8) && v1 < v2 ==> ((v1 & 0xff) as u8) < ((v2 & 0xff) as u8)) by (bit_vector);
        lemma_lex_lt_from_diff(a, b, 7);
    } else {
        assert((((v1 >> 56) & 0xff) as u8) == (((v2 >> 56) & 0xff) as u8) && (((v1 >> 48) & 0xff) as u8) == (((v2 >> 48) & 0xff) as u8) && (((v1 >> 40) & 0xff) as u8) == (((v2 >> 40) & 0xff) as u8) && (((v1 >> 32) & 0xff) as u8) == (((v2 >> 32) & 0xff) as u8) && (((v1 >> 24) & 0xff) as u8) == (((v2 >> 24) & 0xff) as u8) && (((v1 >> 16) & 0xff) as u8) == (((v2 >> 16) & 0xff) as u8) && (((v1 >> 8) & 0xff) as u8) == (((v2 >> 8) & 0xff) as u8) && ((v1 & 0xff) as u8) == ((v2 & 0xff) as u8) ==> v1 == v2) by (bit_vector);
        assert(false);
    }
}

/// No byte string sorts strictly before itself.
pub proof fn lemma_lex_lt_irrefl(a: Seq<u8>)
    ensures
        !lex_lt(a, a),
    decreases a.len(),
{
    if a.len() > 0 {
        lemma_lex_lt_irrefl(a.drop_first());
    }
}

/// The strict byte order is asymmetric.
pub proof fn lemma_lex_lt_asym(a: Seq<u8>, b: Seq<u8>)
    requires
        lex_lt(a, b),
    ensures
        !lex_lt(b, a),
    decreases a.len(),
{
    if a.len() > 0 && b.len() > 0 && a[0] == b[0] {
        lemma_lex_lt_asym(a.drop_first(), b.drop_first());
    }
}

/// A shared prefix neither creates nor hides an ordering: two keys with the
/// same prefix compare as their remainders do.
pub proof fn lemma_lex_lt_common_prefix(p: Seq<u8>, a: Seq<u8>, b: Seq<u8>)
    ensures
        lex_lt(p + a, p + b) == lex_lt(a, b),
    decreases p.len(),
{
    if p.len() == 0 {
        assert(p + a =~= a);
        assert(p + b =~= b);
    } else {
        assert((p + a).drop_first() =~= p.drop_first() + a);
        assert((p + b).drop_first() =~= p.drop_first() + b);
        lemma_lex_lt_common_prefix(p.drop_first(), a, b);
    }
}

/// The big-endian byte order of two versions is exactly their numeric order.
pub proof fn lemma_be64_order(v1: u64, v2: u64)
    ensures
        lex_lt(be64(v1), be64(v2)) == (v1 < v2),
{
    if v1 < v2 {
        lemma_be64_prefix_order(v1, v2, Seq::empty(), Seq::empty());
        assert(be64(v1) + Seq::<u8>::empty() =~= be64(v1));
        assert(be64(v2) + Seq::<u8>::empty() =~= be64(v2));
    } else if v1 == v2 {
        lemma_lex_lt_irrefl(be64(v1));
    } else {
        lemma_be64_prefix_order(v2, v1, Seq::empty(), Seq::empty());
        assert(be64(v2) + Seq::<u8>::empty() =~= be64(v2));
        assert(be64(v1) + Seq::<u8>::empty() =~= be64(v1));
        lemma_lex_lt_asym(be64(v2), be64(v1));
    }
}

/// Appends the big-endian bytes of `v` to `out`.
pub fn push_be64(out: &mut Vec<u8>, v: u64)
    ensures
        final(out)@ == old(out)@ + be64(v),
{
    proof {
        lemma_byte_mask(v >> 56);
        lemma_byte_mask(v >> 48);
        lemma_byte_mask(v >> 40);
        lemma_byte_mask(v >> 32);
        lemma_byte_mask(v >> 24);
        lemma_byte_mask(v >> 16);
        lemma_byte_mask(v >> 8);
        lemma_byte_mask(v);
    }
    out.push(((v >> 56) & 0xff) as u8);
    out.push(((v >> 48) & 0xff) as u8);
    out.push(((v >> 40) & 0xff) as u8);
    out.push(((v >> 32) & 0xff) as u8);
    out.push(((v >> 24) & 0xff) as u8);
    out.push(((v >> 16) & 0xff) as u8);
    out.push(((v >> 8) & 0xff) as u8);
    out.push((v & 0xff) as u8);
    proof {
        assert(out@ =~= old(out)@ + be64(v));
    }
}

/// Appends the little-endian bytes of `v` to `out`.
pub fn push_le64(out: &mut Vec<u8>, v: u64)
    ensures
        final(out)@ == old(out)@ + le64(v),
{
    proof {
        lemma_byte_mask(v >> 56);
        lemma_byte_mask(v >> 48);
        lemma_byte_mask(v >> 40);
        lemma_byte_mask(v >> 32);
        lemma_byte_mask(v >> 24);
        lemma_byte_mask(v >> 16);
        lemma_byte_mask(v >> 8);
        lemma_byte_mask(v);
    }
    out.push((v & 0xff) as u8);
    out.push(((v >> 8) & 0xff) as u8);
    out.push(((v >> 16) & 0xff) as u8);
    out.push(((v >> 24) & 0xff) as u8);
    out.push(((v >> 32) & 0xff) as u8);
    out.push(((v >> 40) & 0xff) as u8);
    out.push(((v >> 48) & 0xff) as u8);
    out.push(((v >> 56) & 0xff) as u8);
    proof {
        assert(out@ =~= old(out)@ + le64(v));
    }
}

/// Appends the little-endian bytes of `v` to `out`.
pub fn push_le32(out: &mut Vec<u8>, v: u32)
    ensures
        final(out)@ == old(out)@ + le32(v),
{
    proof {
        lemma_byte_mask32(v >> 24);
        lemma_byte_mask32(v >> 16);
        lemma_byte_mask32(v >> 8);
        lemma_byte_mask32(v);
    }
    out.push((v & 0xff) as u8);
    out.push(((v >> 8) & 0xff) as u8);
    out.push(((v >> 16) & 0xff) as u8);
    out.push(((v >> 24) & 0xff) as u8);
    proof {
        assert(out@ =~= old(out)@ + le32(v));
    }
}

/// Reads the 64-bit little-endian integer stored at `off` in `b`.
pub fn read_le64(b: &Vec<u8>, off: usize) -> (r: u64)
    requires
        off + 8 <= b@.len(),
    ensures
        r == u64_of_le8(b@.subrange(off as int, off as int + 8)),
{
    let n: usize = b.len();
    assert(off + 8 <= n);
    let r: u64 = (b[off] as u64) | ((b[off + 1] as u64) << 8) | ((b[off + 2] as u64) << 16) | ((b[off
        + 3] as u64) << 24) | ((b[off + 4] as u64) << 32) | ((b[off + 5] as u64) << 40) | ((b[off
        + 6] as u64) << 48) | ((b[off + 7] as u64) << 56);
    r
}

/// Reads the 32-bit little-endian integer stored at `off` in `b`.
pub fn read_le32(b: &Vec<u8>, off: usize) -> (r: u32)
    requires
        off + 4 <= b@.len(),
    ensures
        r == u32_of_le4(b@.subrange(off as int, off as int + 4)),
{
    let n: usize = b.len();
    assert(off + 4 <= n);
    let r: u32 = (b[off] as u32) | ((b[off + 1] as u32) << 8) | ((b[off + 2] as u32) << 16) | ((b[off
        + 3] as u32) << 24);
    r
}

} // verus!
