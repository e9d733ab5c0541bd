//! Namespace (substore) configuration: derives the five partition names from
//! a prefix string and validates their presence in the backing store.

use vstd::prelude::*;
use vstd::string::StringExecFns;

use crate::node_key::interpret_rightmost_entry;
use crate::node_key::NodeKind;
use crate::StoreError;

verus! {

/// The tree-nodes partition name for a prefix.
pub open spec fn jmt_name(prefix: Seq<char>) -> Seq<char> {
    "substore-"@ + prefix + "-jmt"@
}

/// The preimage-index partition name for a prefix.
pub open spec fn jmt_keys_name(prefix: Seq<char>) -> Seq<char> {
    "substore-"@ + prefix + "-jmt-keys"@
}

/// The value-log partition name for a prefix.
pub open spec fn jmt_values_name(prefix: Seq<char>) -> Seq<char> {
    "substore-"@ + prefix + "-jmt-values"@
}

/// The hash-to-preimage partition name for a prefix.
pub open spec fn jmt_keys_by_keyhash_name(prefix: Seq<char>) -> Seq<char> {
    "substore-"@ + prefix + "-jmt-keys-by-keyhash"@
}

/// The non-verifiable partition name for a prefix.
pub open spec fn nonverifiable_name(prefix: Seq<char>) -> Seq<char> {
    "substore-"@ + prefix + "-nonverifiable"@
}

/// Configuration of one namespace: its prefix (empty for the root
/// namespace) and the names of its five partitions in the backing store.
#[derive(Debug)]
pub struct SubstoreConfig {
    /// The prefix of the substore. If empty, it is the root-level store
    /// config.
    pub prefix: String,
    /// Persists the logical structure of the tree: order-preserving node
    /// key to serialized node.
    pub cf_jmt: String,
    /// Preimage index: logical key to its key-hash.
    pub cf_jmt_keys: String,
    /// Value log: key-hash and version to an optional serialized value.
    pub cf_jmt_values: String,
    /// Reverse index: key-hash to its preimage.
    pub cf_jmt_keys_by_keyhash: String,
    /// Auxiliary data outside the tree, not part of the authenticated
    /// state.
    pub cf_nonverifiable: String,
}

impl SubstoreConfig {
    /// The five partition names are exactly those derived from the prefix.
    pub open spec fn wf(self) -> bool {
        &&& self.cf_jmt@ == jmt_name(self.prefix@)
        &&& self.cf_jmt_keys@ == jmt_keys_name(self.prefix@)
        &&& self.cf_jmt_values@ == jmt_values_name(self.prefix@)
        &&& self.cf_jmt_keys_by_keyhash@ == jmt_keys_by_keyhash_name(self.prefix@)
        &&& self.cf_nonverifiable@ == nonverifiable_name(self.prefix@)
    }

    /// Derives the configuration for a prefix.
    pub fn new(prefix: String) -> (r: SubstoreConfig)
        ensures
            r.prefix@ == prefix@,
            r.wf(),
    {
        let cf_jmt = String::from_str("substore-").concat(prefix.as_str()).concat("-jmt");
        let cf_jmt_keys = String::from_str("substore-").concat(prefix.as_str()).concat(
            "-jmt-keys",
        );
        let cf_jmt_values = String::from_str("substore-").concat(prefix.as_str()).concat(
            "-jmt-values",
        );
        let cf_jmt_keys_by_keyhash = String::from_str("substore-").concat(prefix.as_str()).concat(
            "-jmt-keys-by-keyhash",
        );
        let cf_nonverifiable = String::from_str("substore-").concat(prefix.as_str()).concat(
            "-nonverifiable",
        );
        SubstoreConfig {
            prefix,
            cf_jmt,
            cf_jmt_keys,
            cf_jmt_values,
            cf_jmt_keys_by_keyhash,
            cf_nonverifiable,
        }
    }

    /// All five partition names of this substore, in declaration order.
    pub fn columns(&self) -> (r: Vec<String>)
        ensures
            r@.len() == 5,
            r@[0]@ == self.cf_jmt@,
            r@[1]@ == self.cf_jmt_keys@,
            r@[2]@ == self.cf_jmt_values@,
            r@[3]@ == self.cf_jmt_keys_by_keyhash@,
            r@[4]@ == self.cf_nonverifiable@,
    {
        let mut r: Vec<String> = Vec::new();
        r.push(self.cf_jmt.clone());
        r.push(self.cf_jmt_keys.clone());
        r.push(self.cf_jmt_values.clone());
        r.push(self.cf_jmt_keys_by_keyhash.clone());
        r.push(self.cf_nonverifiable.clone());
        r
    }

    /// The tree-nodes partition name.
    pub fn cf_jmt(&self) -> (r: &String)
        ensures
            r@ == self.cf_jmt@,
    {
        &self.cf_jmt
    }

    /// The value-log partition name.
    pub fn cf_jmt_values(&self) -> (r: &String)
        ensures
            r@ == self.cf_jmt_values@,
    {
        &self.cf_jmt_values
    }

    /// The hash-to-preimage partition name.
    pub fn cf_jmt_keys_by_keyhash(&self) -> (r: &String)
        ensures
            r@ == self.cf_jmt_keys_by_keyhash@,
    {
        &self.cf_jmt_keys_by_keyhash
    }

    /// The preimage-index partition name.
    pub fn cf_jmt_keys(&self) -> (r: &String)
        ensures
            r@ == self.cf_jmt_keys@,
    {
        &self.cf_jmt_keys
    }

    /// The non-verifiable partition name.
    pub fn cf_nonverifiable(&self) -> (r: &String)
        ensures
            r@ == self.cf_nonverifiable@,
    {
        &self.cf_nonverifiable
    }

    /// Checks that every partition of this substore exists in the backing
    /// store, given the names the store reports. A missing partition is a
    /// configuration fault — the store was opened without being initialized
    /// for this namespace — surfaced as a distinguished error, not a
    /// recoverable condition.
    pub fn validate_columns(&self, existing: &Vec<String>) -> (r: Result<(), StoreError>)
        ensures
            r is Ok <==> (forall|i: int|
                0 <= i < self.columns_view().len() ==> exists|j: int|
                    0 <= j < existing@.len() && existing@[j]@ == #[trigger] self.columns_view()[i]),
            r matches Err(e) ==> (e matches StoreError::MissingColumn { column } && exists|i: int|
                0 <= i < self.columns_view().len() && column@ == self.columns_view()[i] && !(
                exists|j: int| 0 <= j < existing@.len() && existing@[j]@ == column@)),
    {
        let mut needed = self.columns();
        proof {
            assert(needed@.map_values(|s: String| s@) =~= self.columns_view());
        }
        let mut i: usize = 0;
        while i < needed.len()
            invariant
                i <= needed@.len(),
                needed@.map_values(|s: String| s@) =~= self.columns_view(),
                forall|k: int|
                    0 <= k < i ==> exists|j: int|
                        0 <= j < existing@.len() && existing@[j]@ == #[trigger] self.columns_view()[k],
            decreases needed@.len() - i,
        {
            let mut found = false;
            let mut j: usize = 0;
            while j < existing.len()
                invariant
                    j <= existing@.len(),
                    i < needed@.len(),
                    needed@.map_values(|s: String| s@) =~= self.columns_view(),
                    found <==> exists|k: int|
                        0 <= k < j && existing@[k]@ == #[trigger] needed@[i as int]@,
                decreases existing@.len() - j,
            {
                if existing[j].eq(&needed[i]) {
                    found = true;
                }
                j = j + 1;
            }
            if !found {
                proof {
                    assert(needed@.map_values(|s: String| s@)[i as int] == needed@[i as int]@);
                    assert(self.columns_view()[i as int] == needed@[i as int]@);
                    assert(!(exists|j: int|
                        0 <= j < existing@.len() && existing@[j]@ == self.columns_view()[i as int]));
                }
                return Err(StoreError::MissingColumn { column: needed.remove(i) });
            }
            i = i + 1;
        }
        Ok(())
    }

    /// The five partition names as character sequences, in declaration
    /// order.
    pub open spec fn columns_view(self) -> Seq<Seq<char>> {
        seq![
            self.cf_jmt@,
            self.cf_jmt_keys@,
            self.cf_jmt_values@,
            self.cf_jmt_keys_by_keyhash@,
            self.cf_nonverifiable@,
        ]
    }

    /// The latest committed version of this namespace, read off the
    /// rightmost (highest-version) entry of its tree-nodes partition: the
    /// version of the rightmost leaf, or none for a namespace never written.
    pub fn latest_version(&self, rightmost: Option<(Vec<u8>, NodeKind)>) -> (r: Result<
        Option<u64>,
        StoreError,
    >)
        ensures
            rightmost is None ==> (r matches Ok(v) && v is None),
            r matches Err(e) ==> e is CorruptNodeKey,
            rightmost matches Some(p) ==> (if p.0@.len() >= 8 && crate::node_key::parse_node_body(
                p.0@.skip(8),
            ) is Some {
                r matches Ok(v) && (if p.1 is Leaf {
                    v matches Some(ver) && ver == crate::node_key::parse_node_body(
                        p.0@.skip(8),
                    ).unwrap().0
                } else {
                    v is None
                })
            } else {
                r is Err
            }),
    {
        match interpret_rightmost_entry(rightmost) {
            Ok(Some(node_id)) => Ok(Some(node_id.version)),
            Ok(None) => Ok(None),
            Err(e) => Err(e),
        }
    }
}

} // verus!
