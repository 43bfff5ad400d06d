//! Laws that hold of every index set and every buffer, stated over the model that the entry
//! points' contracts use.
use crate::materialize_ranges::ranges_valid;
use crate::model::{all_distinct, in_bounds, keeps_others, sorted_valid, strictly_ascending, unsorted_valid};
use crate::simple_result::GetManyErrorKind;
use crate::slice_index::ranges::inclusive_ranges_valid;
use crate::std_proposal::{error_kind, ErrorKind};
use crate::validate::{sorted_failure, unsorted_failure};
use vstd::prelude::*;

verus! {

/// The buffer `before` after writing `later[k]` at index `idx[k]`, for every position `k`.
pub open spec fn written<T>(before: Seq<T>, idx: Seq<usize>, later: Seq<T>) -> Seq<T> {
    Seq::new(
        before.len(),
        |q: int|
            if exists|k: int| 0 <= k < idx.len() && idx[k] == q {
                later[choose|k: int| 0 <= k < idx.len() && idx[k] == q]
            } else {
                before[q]
            },
    )
}

/// Writes through a bundle of mutable references do not interfere: once a bundle drawn by a
/// valid index set is gone, the buffer is exactly the old one with, at each index, the value
/// that was left behind the reference of that index, so that reading the indices back gives the
/// written values in order.
pub proof fn law_disjoint_writes<T>(before: Seq<T>, after: Seq<T>, idx: Seq<usize>, later: Seq<T>)
    requires
        before.len() <= usize::MAX,
        unsorted_valid(idx, before.len() as int),
        later.len() == idx.len(),
        keeps_others(before, after, idx),
        forall|k: int| 0 <= k < idx.len() ==> after[idx[k] as int] == #[trigger] later[k],
    ensures
        after == written(before, idx, later),
        forall|k: int| 0 <= k < idx.len() ==> #[trigger] written(before, idx, later)[idx[k] as int] == later[k],
{
    let w = written(before, idx, later);
    assert forall|q: int| 0 <= q < before.len() implies after[q] == w[q] by {
        if exists|k: int| 0 <= k < idx.len() && idx[k] == q {
            let k = choose|k: int| 0 <= k < idx.len() && idx[k] == q;
            assert(after[idx[k] as int] == later[k]);
        } else {
            if idx.contains(q as usize) {
                let k = choose|k: int| 0 <= k < idx.len() && idx[k] == q as usize;
                assert(idx[k] == q);
            }
        }
    }
    assert(after =~= w);
    assert forall|k: int| 0 <= k < idx.len() implies #[trigger] w[idx[k] as int] == later[k] by {
        assert(idx[k] < before.len());
        let j = choose|j: int| 0 <= j < idx.len() && idx[j] == idx[k] as int;
        assert(j == k);
    }
}

/// An index set that holds an index at or past the length is refused by every policy, and the
/// violation reported for it is an out-of-bounds one.
pub proof fn law_out_of_bounds_rejected(idx: Seq<usize>, len: int, k: int, kind: GetManyErrorKind)
    requires
        0 <= k < idx.len(),
        idx[k] >= len,
    ensures
        !sorted_valid(idx, len),
        !unsorted_valid(idx, len),
        error_kind(idx, len) == ErrorKind::OutOfBounds,
        sorted_failure(idx, len, kind) ==> kind is OutOfBounds,
        unsorted_failure(idx, len, kind) ==> kind is OutOfBounds,
{
    assert(!in_bounds(idx, len));
}

/// An index set in which one index occurs twice is refused by every policy; when all indices
/// fit, the violation reported is a repetition, at two positions that hold the same index.
pub proof fn law_duplicate_rejected(idx: Seq<usize>, len: int, a: int, b: int, kind: GetManyErrorKind)
    requires
        0 <= a < b < idx.len(),
        idx[a] == idx[b],
    ensures
        !sorted_valid(idx, len),
        !unsorted_valid(idx, len),
        in_bounds(idx, len) ==> error_kind(idx, len) == ErrorKind::NotUnique,
        in_bounds(idx, len) && unsorted_failure(idx, len, kind) ==> (kind matches GetManyErrorKind::NotUnique {
            many_idx_1,
            many_idx_2,
            slice_idx,
        } && many_idx_1 < many_idx_2 && idx[many_idx_1 as int] == slice_idx && idx[many_idx_2 as int] == slice_idx),
{
    assert(!all_distinct(idx));
    assert(!strictly_ascending(idx)) by {
        if strictly_ascending(idx) {
            assert(idx[a] < idx[b]);
        }
    }
}

/// Order matters to the sorted policy only: indices that are distinct and in bounds are always
/// accepted by the unsorted policy, and by the sorted one exactly when they ascend.
pub proof fn law_order_matters_only_when_sorted(idx: Seq<usize>, len: int)
    requires
        all_distinct(idx),
        in_bounds(idx, len),
    ensures
        unsorted_valid(idx, len),
        sorted_valid(idx, len) <==> strictly_ascending(idx),
{
}

/// The empty index set is valid for every policy and every length, the empty one included.
pub proof fn law_empty_always_valid(len: int)
    requires
        len >= 0,
    ensures
        strictly_ascending(Seq::<usize>::empty()),
        sorted_valid(Seq::<usize>::empty(), len),
        unsorted_valid(Seq::<usize>::empty(), len),
        ranges_valid(Seq::<usize>::empty(), Seq::<usize>::empty(), len),
        inclusive_ranges_valid(Seq::<usize>::empty(), Seq::<usize>::empty(), len),
{
}

} // verus!
