//! The mathematical model of an index set: when it is valid for a buffer, and what a bundle of
//! references drawn from a buffer by it holds.
use vstd::prelude::*;

verus! {

/// Every index lies inside a buffer of length `len`.
pub open spec fn in_bounds(idx: Seq<usize>, len: int) -> bool {
    forall|k: int| 0 <= k < idx.len() ==> #[trigger] idx[k] < len
}

/// No index occurs twice.
pub open spec fn all_distinct(idx: Seq<usize>) -> bool {
    forall|a: int, b: int| 0 <= a < idx.len() && 0 <= b < idx.len() && a != b ==> idx[a] != idx[b]
}

/// `idx[0] < idx[1] < ... < idx[n - 1]`.
pub open spec fn strictly_ascending(idx: Seq<usize>) -> bool {
    forall|a: int, b: int| 0 <= a < b < idx.len() ==> idx[a] < idx[b]
}

/// The obligation of the sorted policy: ascending, hence unique, and in bounds.
pub open spec fn sorted_valid(idx: Seq<usize>, len: int) -> bool {
    strictly_ascending(idx) && in_bounds(idx, len)
}

/// The obligation of the unsorted policy, and what the materializer needs: unique and in bounds.
pub open spec fn unsorted_valid(idx: Seq<usize>, len: int) -> bool {
    all_distinct(idx) && in_bounds(idx, len)
}

/// `r` holds, position by position, the elements of `s` that `idx` names.
pub open spec fn picks<T>(s: Seq<T>, idx: Seq<usize>, r: Seq<&T>) -> bool {
    &&& r.len() == idx.len()
    &&& forall|k: int| 0 <= k < idx.len() ==> *#[trigger] r[k] == s[idx[k] as int]
}

/// Each mutable reference of `r` starts at the element of `s` that its index names.
pub open spec fn picks_mut<T>(s: Seq<T>, idx: Seq<usize>, r: Seq<&mut T>) -> bool {
    &&& r.len() == idx.len()
    &&& forall|k: int| 0 <= k < idx.len() ==> *#[trigger] r[k] == s[idx[k] as int]
}

/// A buffer that held `before` holds `after`, of the same length, and every element that `idx`
/// does not name is as it was.
pub open spec fn keeps_others<T>(before: Seq<T>, after: Seq<T>, idx: Seq<usize>) -> bool {
    &&& after.len() == before.len()
    &&& forall|q: int| 0 <= q < before.len() && !idx.contains(q as usize) ==> #[trigger] after[q] == before[q]
}

/// Ascending indices are distinct.
pub proof fn lemma_ascending_distinct(idx: Seq<usize>)
    requires
        strictly_ascending(idx),
    ensures
        all_distinct(idx),
{
    assert forall|a: int, b: int| 0 <= a < idx.len() && 0 <= b < idx.len() && a != b implies idx[a] != idx[b] by {
        if a < b {
            assert(idx[a] < idx[b]);
        } else {
            assert(idx[b] < idx[a]);
        }
    }
}

} // verus!
