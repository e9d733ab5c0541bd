//! The storage laws: what a committed write plan does to the five
//! partitions, stated over a mathematical model of the backing store and
//! proved of the plans the commit pipeline emits.

use vstd::prelude::*;

use crate::codec::be64;
use crate::codec::lemma_be64_order;
use crate::codec::lemma_lex_lt_irrefl;
use crate::commit::index_pairs_for;
use crate::commit::Partition;
use crate::commit::WriteOp;
use crate::hash::keyhash_of;
use crate::value_key::versioned_key;

verus! {

/// A model of one namespace's five partitions: each an ordered map from
/// key bytes to value bytes.
pub struct StoreModel {
    /// The tree-nodes partition.
    pub nodes: Map<Seq<u8>, Seq<u8>>,
    /// The value-log partition.
    pub values: Map<Seq<u8>, Seq<u8>>,
    /// The preimage index.
    pub keys: Map<Seq<u8>, Seq<u8>>,
    /// The reverse index.
    pub keys_by_keyhash: Map<Seq<u8>, Seq<u8>>,
    /// The non-verifiable partition.
    pub nonverifiable: Map<Seq<u8>, Seq<u8>>,
}

/// The map behind one partition.
pub open spec fn table(m: StoreModel, p: Partition) -> Map<Seq<u8>, Seq<u8>> {
    match p {
        Partition::Nodes => m.nodes,
        Partition::Values => m.values,
        Partition::Keys => m.keys,
        Partition::KeysByKeyHash => m.keys_by_keyhash,
        Partition::NonVerifiable => m.nonverifiable,
    }
}

/// The model with one partition's map replaced.
pub open spec fn with_table(m: StoreModel, p: Partition, t: Map<Seq<u8>, Seq<u8>>) -> StoreModel {
    match p {
        Partition::Nodes => StoreModel { nodes: t, ..m },
        Partition::Values => StoreModel { values: t, ..m },
        Partition::Keys => StoreModel { keys: t, ..m },
        Partition::KeysByKeyHash => StoreModel { keys_by_keyhash: t, ..m },
        Partition::NonVerifiable => StoreModel { nonverifiable: t, ..m },
    }
}

/// A point lookup in one partition.
pub open spec fn lookup(m: StoreModel, p: Partition, k: Seq<u8>) -> Option<Seq<u8>> {
    if table(m, p).dom().contains(k) {
        Some(table(m, p)[k])
    } else {
        None
    }
}

/// One write applied to the model: a put stores, a delete removes.
pub open spec fn apply_op(m: StoreModel, op: WriteOp) -> StoreModel {
    if op.is_put() {
        with_table(m, op.part(), table(m, op.part()).insert(op.key_view(), op.value_view()))
    } else {
        with_table(m, op.part(), table(m, op.part()).remove(op.key_view()))
    }
}

/// A write list applied in order.
pub open spec fn apply_ops(m: StoreModel, ops: Seq<WriteOp>) -> StoreModel
    decreases ops.len(),
{
    if ops.len() == 0 {
        m
    } else {
        apply_ops(apply_op(m, ops[0]), ops.drop_first())
    }
}

/// A list of write pairs applied in order, first element of each pair
/// first.
pub open spec fn apply_pairs(m: StoreModel, pairs: Seq<(WriteOp, WriteOp)>) -> StoreModel
    decreases pairs.len(),
{
    if pairs.len() == 0 {
        m
    } else {
        apply_pairs(apply_op(apply_op(m, pairs[0].0), pairs[0].1), pairs.drop_first())
    }
}

/// Writes that never target a key leave its lookup unchanged.
pub proof fn lemma_ops_frame(m: StoreModel, ops: Seq<WriteOp>, p: Partition, k: Seq<u8>)
    requires
        forall|i: int|
            0 <= i < ops.len() ==> ((#[trigger] ops[i]).part() != p || ops[i].key_view() != k),
    ensures
        lookup(apply_ops(m, ops), p, k) == lookup(m, p, k),
    decreases ops.len(),
{
    if ops.len() > 0 {
        assert(lookup(apply_op(m, ops[0]), p, k) == lookup(m, p, k));
        lemma_ops_frame(apply_op(m, ops[0]), ops.drop_first(), p, k);
    }
}

/// Write pairs that never target a key leave its lookup unchanged.
pub proof fn lemma_pairs_frame(
    m: StoreModel,
    pairs: Seq<(WriteOp, WriteOp)>,
    p: Partition,
    k: Seq<u8>,
)
    requires
        forall|i: int|
            0 <= i < pairs.len() ==> (((#[trigger] pairs[i]).0.part() != p || pairs[i].0.key_view()
                != k) && (pairs[i].1.part() != p || pairs[i].1.key_view() != k)),
    ensures
        lookup(apply_pairs(m, pairs), p, k) == lookup(m, p, k),
    decreases pairs.len(),
{
    if pairs.len() > 0 {
        let m1 = apply_op(apply_op(m, pairs[0].0), pairs[0].1);
        assert(lookup(m1, p, k) == lookup(m, p, k));
        lemma_pairs_frame(m1, pairs.drop_first(), p, k);
    }
}

/// Non-verifiable isolation law: applying writes that target only the
/// non-verifiable partition leaves all four tree-facing partitions
/// untouched. The root hash is computed from, and only from, the tree's
/// node structure, so such writes can never change it.
pub proof fn lemma_nonverifiable_isolation(m: StoreModel, ops: Seq<WriteOp>)
    requires
        forall|i: int|
            0 <= i < ops.len() ==> (#[trigger] ops[i]).part() == Partition::NonVerifiable,
    ensures
        apply_ops(m, ops).nodes == m.nodes,
        apply_ops(m, ops).values == m.values,
        apply_ops(m, ops).keys == m.keys,
        apply_ops(m, ops).keys_by_keyhash == m.keys_by_keyhash,
    decreases ops.len(),
{
    if ops.len() > 0 {
        lemma_nonverifiable_isolation(apply_op(m, ops[0]), ops.drop_first());
    }
}

/// Two value-log keys with the same key-hash but different versions are
/// different keys.
pub proof fn lemma_versioned_key_version_injective(kh: Seq<u8>, v1: u64, v2: u64)
    requires
        v1 != v2,
    ensures
        versioned_key(kh, v1) != versioned_key(kh, v2),
{
    if versioned_key(kh, v1) == versioned_key(kh, v2) {
        assert(versioned_key(kh, v1).skip(kh.len() as int) =~= be64(v1));
        assert(versioned_key(kh, v2).skip(kh.len() as int) =~= be64(v2));
        assert(be64(v1) == be64(v2));
        if v1 < v2 {
            lemma_be64_order(v1, v2);
            lemma_lex_lt_irrefl(be64(v1));
        } else {
            lemma_be64_order(v2, v1);
            lemma_lex_lt_irrefl(be64(v2));
        }
    }
}

/// Historical reads preserved: a commit whose value-log writes all land at
/// version `w` leaves every value-log entry of any earlier version exactly
/// as it was, so a snapshot still bound to an earlier version reads what it
/// always read.
pub proof fn lemma_historical_reads_preserved(
    m: StoreModel,
    ops: Seq<WriteOp>,
    kh: Seq<u8>,
    ver: u64,
    w: u64,
)
    requires
        ver < w,
        forall|i: int|
            0 <= i < ops.len() && (#[trigger] ops[i]).part() == Partition::Values
                ==> exists|hh: Seq<u8>| ops[i].key_view() == versioned_key(hh, w),
    ensures
        lookup(apply_ops(m, ops), Partition::Values, versioned_key(kh, ver)) == lookup(
            m,
            Partition::Values,
            versioned_key(kh, ver),
        ),
{
    assert forall|i: int| 0 <= i < ops.len() implies ((#[trigger] ops[i]).part()
        != Partition::Values || ops[i].key_view() != versioned_key(kh, ver)) by {
        if ops[i].part() == Partition::Values {
            let hh = choose|hh: Seq<u8>| ops[i].key_view() == versioned_key(hh, w);
            if ops[i].key_view() == versioned_key(kh, ver) {
                assert(versioned_key(hh, w).len() == hh.len() + 8);
                assert(versioned_key(kh, ver).len() == kh.len() + 8);
                assert(hh.len() == kh.len());
                assert(versioned_key(hh, w).take(hh.len() as int) =~= hh);
                assert(versioned_key(kh, ver).take(kh.len() as int) =~= kh);
                assert(hh == kh);
                lemma_versioned_key_version_injective(kh, ver, w);
            }
        }
    }
    lemma_ops_frame(m, ops, Partition::Values, versioned_key(kh, ver));
}

/// Index consistency law: after applying the index writes of a commit
/// whose change-set names each key once — and whose keys hash pairwise
/// distinctly, as a cryptographic hash gives — an upserted key resolves in
/// the preimage index to its hash and in the reverse index back to the key,
/// and a deleted key resolves in neither.
pub proof fn lemma_index_consistency(
    m: StoreModel,
    changes: Seq<(Vec<u8>, Option<Vec<u8>>)>,
    pairs: Seq<(WriteOp, WriteOp)>,
    i: int,
)
    requires
        index_pairs_for(changes, pairs),
        0 <= i < changes.len(),
        forall|a: int, b: int|
            0 <= a < b < changes.len() ==> (#[trigger] changes[a]).0@ != (#[trigger] changes[b]).0@,
        forall|a: int, b: int|
            0 <= a < b < changes.len() ==> keyhash_of((#[trigger] changes[a]).0@) != keyhash_of(
                (#[trigger] changes[b]).0@,
            ),
    ensures
        changes[i].1 is Some ==> lookup(apply_pairs(m, pairs), Partition::Keys, changes[i].0@)
            == Some(keyhash_of(changes[i].0@)) && lookup(
            apply_pairs(m, pairs),
            Partition::KeysByKeyHash,
            keyhash_of(changes[i].0@),
        ) == Some(changes[i].0@),
        changes[i].1 is None ==> lookup(apply_pairs(m, pairs), Partition::Keys, changes[i].0@)
            is None && lookup(
            apply_pairs(m, pairs),
            Partition::KeysByKeyHash,
            keyhash_of(changes[i].0@),
        ) is None,
    decreases i,
{
    let k = changes[i].0@;
    let h = keyhash_of(k);
    if i == 0 {
        let m1 = apply_op(apply_op(m, pairs[0].0), pairs[0].1);
        if changes[0].1 is Some {
            assert(lookup(m1, Partition::Keys, k) == Some(h));
            assert(lookup(m1, Partition::KeysByKeyHash, h) == Some(k));
        } else {
            assert(lookup(m1, Partition::Keys, k) is None);
            assert(lookup(m1, Partition::KeysByKeyHash, h) is None);
        }
        let rest = pairs.drop_first();
        assert forall|t: int| 0 <= t < rest.len() implies (((#[trigger] rest[t]).0.part()
            != Partition::Keys || rest[t].0.key_view() != k) && (rest[t].1.part()
            != Partition::KeysByKeyHash || rest[t].1.key_view() != h)) by {
            assert(rest[t] == pairs[t + 1]);
            assert(changes[t + 1].0@ != k);
            assert(keyhash_of(changes[t + 1].0@) != h);
        }
        assert forall|t: int| 0 <= t < rest.len() implies (((#[trigger] rest[t]).0.part()
            != Partition::Keys || rest[t].0.key_view() != k) && (rest[t].1.part()
            != Partition::Keys || rest[t].1.key_view() != k)) by {
            assert(rest[t] == pairs[t + 1]);
            assert(changes[t + 1].0@ != k);
            assert(keyhash_of(changes[t + 1].0@) != h);
        }
        assert forall|t: int| 0 <= t < rest.len() implies (((#[trigger] rest[t]).0.part()
            != Partition::KeysByKeyHash || rest[t].0.key_view() != h) && (rest[t].1.part()
            != Partition::KeysByKeyHash || rest[t].1.key_view() != h)) by {
            assert(rest[t] == pairs[t + 1]);
            assert(changes[t + 1].0@ != k);
            assert(keyhash_of(changes[t + 1].0@) != h);
        }
        lemma_pairs_frame(m1, rest, Partition::Keys, k);
        lemma_pairs_frame(m1, rest, Partition::KeysByKeyHash, h);
    } else {
        let m1 = apply_op(apply_op(m, pairs[0].0), pairs[0].1);
        let ctail = changes.drop_first();
        let ptail = pairs.drop_first();
        assert forall|t: int| #![trigger ctail[t]] 0 <= t < ctail.len() implies {
            &&& (ctail[t].1 is Some ==> ptail[t].0.is_put() && ptail[t].0.part()
                == Partition::Keys && ptail[t].0.key_view() == ctail[t].0@
                && ptail[t].0.value_view() == keyhash_of(ctail[t].0@) && ptail[t].1.is_put()
                && ptail[t].1.part() == Partition::KeysByKeyHash && ptail[t].1.key_view()
                == keyhash_of(ctail[t].0@) && ptail[t].1.value_view() == ctail[t].0@)
            &&& (ctail[t].1 is None ==> !ptail[t].0.is_put() && ptail[t].0.part()
                == Partition::Keys && ptail[t].0.key_view() == ctail[t].0@ && !ptail[t].1.is_put()
                && ptail[t].1.part() == Partition::KeysByKeyHash && ptail[t].1.key_view()
                == keyhash_of(ctail[t].0@))
        } by {
            assert(ctail[t] == changes[t + 1]);
            assert(ptail[t] == pairs[t + 1]);
        }
        assert(index_pairs_for(ctail, ptail));
        assert forall|a: int, b: int| 0 <= a < b < ctail.len() implies (#[trigger] ctail[a]).0@
            != (#[trigger] ctail[b]).0@ && keyhash_of(ctail[a].0@) != keyhash_of(ctail[b].0@) by {
            assert(ctail[a] == changes[a + 1]);
            assert(ctail[b] == changes[b + 1]);
        }
        lemma_index_consistency(m1, ctail, ptail, i - 1);
        assert(ctail[i - 1] == changes[i]);
    }
}

} // verus!
