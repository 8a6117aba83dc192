//! Small helpers over index lists.

use crate::model::all_distinct;
use vstd::prelude::*;

verus! {

/// Whether no position occurs twice in the index list.
pub fn has_unique_elements(indices: &[usize]) -> (r: bool)
    ensures
        r == all_distinct(indices@),
{
    let n = indices.len();
    for i in 0..n
        invariant
            n == indices@.len(),
            forall|p: int, q: int| 0 <= p < i && p < q < n ==> indices@[p] != indices@[q],
    {
        for j in (i + 1)..n
            invariant
                n == indices@.len(),
                i < n,
                i < j,
                forall|p: int, q: int| 0 <= p < i && p < q < n ==> indices@[p] != indices@[q],
                forall|q: int| i < q < j ==> indices@[i as int] != indices@[q],
        {
            if indices[i] == indices[j] {
                assert(!all_distinct(indices@)) by {
                    assert(indices@[i as int] == indices@[j as int]);
                }
                return false;
            }
        }
    }
    true
}

} // verus!
