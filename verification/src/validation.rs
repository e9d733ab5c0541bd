//! Stateless change validation: single-pass checks with no persistent
//! state.

use vstd::prelude::*;

verus! {

/// A stateless validation failure.
#[derive(Debug)]
pub enum ValidationError {
    /// Two entries carry the same nullifier; the second's position is
    /// reported.
    DuplicateNullifier { index: usize },
}

fn bytes_eq(a: &Vec<u8>, b: &Vec<u8>) -> (r: bool)
    ensures
        r == (a@ == b@),
{
    if a.len() != b.len() {
        return false;
    }
    let n: usize = a.len();
    let mut i: usize = 0;
    while i < n
        invariant
            i <= n,
            n == a@.len(),
            n == b@.len(),
            forall|t: int| 0 <= t < i ==> a@[t] == b@[t],
        decreases n - i,
    {
        if a[i] != b[i] {
            return false;
        }
        i = i + 1;
    }
    proof {
        assert(a@ =~= b@);
    }
    true
}

/// Rejects a list of spent nullifiers that names any nullifier twice:
/// succeeds exactly when all entries are pairwise distinct.
pub fn no_duplicate_nullifiers(nullifiers: &Vec<Vec<u8>>) -> (r: Result<(), ValidationError>)
    ensures
        r is Ok <==> (forall|i: int, j: int|
            0 <= i < j < nullifiers@.len() ==> nullifiers@[i]@ != nullifiers@[j]@),
        r matches Err(e) ==> e is DuplicateNullifier,
{
    let n: usize = nullifiers.len();
    let mut j: usize = 0;
    while j < n
        invariant
            j <= n,
            n == nullifiers@.len(),
            forall|a: int, b: int| 0 <= a < b < j ==> nullifiers@[a]@ != nullifiers@[b]@,
        decreases n - j,
    {
        let mut i: usize = 0;
        while i < j
            invariant
                i <= j < n,
                n == nullifiers@.len(),
                forall|t: int| 0 <= t < i ==> nullifiers@[t]@ != nullifiers@[j as int]@,
            decreases j - i,
        {
            if bytes_eq(&nullifiers[i], &nullifiers[j]) {
                return Err(ValidationError::DuplicateNullifier { index: j });
            }
            i = i + 1;
        }
        j = j + 1;
    }
    Ok(())
}

} // verus!
