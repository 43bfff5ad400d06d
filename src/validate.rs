//! Deciding whether an index set is valid for a buffer, and, when it is not, which index is to
//! blame.
//!
//! Out-of-bounds indices are reported before order or uniqueness violations, and among
//! violations of one kind the earliest position wins.
use crate::model::{all_distinct, in_bounds, sorted_valid, strictly_ascending, unsorted_valid};
use crate::simple_result::GetManyErrorKind;
use vstd::prelude::*;

verus! {

/// `k` is the first position whose index does not fit a buffer of length `len`.
pub open spec fn first_out_of_bounds(idx: Seq<usize>, len: int, k: int) -> bool {
    &&& 0 <= k < idx.len()
    &&& idx[k] >= len
    &&& forall|j: int| 0 <= j < k ==> #[trigger] idx[j] < len
}

/// `kind` names the violation that is reported for the sorted index set `idx` against a buffer
/// of length `len`: the first out-of-bounds position, or else the first adjacent pair that is not
/// ascending, as a duplicate when its two indices are equal.
pub open spec fn sorted_failure(idx: Seq<usize>, len: int, kind: GetManyErrorKind) -> bool {
    match kind {
        GetManyErrorKind::OutOfBounds { many_idx, slice_idx, slice_len } => {
            &&& first_out_of_bounds(idx, len, many_idx as int)
            &&& slice_idx == idx[many_idx as int]
            &&& slice_len == len
        },
        GetManyErrorKind::NotSorted { many_idx_1, many_idx_2 } => {
            &&& in_bounds(idx, len)
            &&& many_idx_2 == many_idx_1 + 1
            &&& many_idx_2 < idx.len()
            &&& idx[many_idx_1 as int] > idx[many_idx_2 as int]
            &&& strictly_ascending(idx.subrange(0, many_idx_2 as int))
        },
        GetManyErrorKind::NotUnique { many_idx_1, many_idx_2, slice_idx } => {
            &&& in_bounds(idx, len)
            &&& many_idx_2 == many_idx_1 + 1
            &&& many_idx_2 < idx.len()
            &&& idx[many_idx_1 as int] == slice_idx
            &&& idx[many_idx_2 as int] == slice_idx
            &&& strictly_ascending(idx.subrange(0, many_idx_2 as int))
        },
    }
}

/// `kind` names the violation that is reported for the unsorted index set `idx` against a
/// buffer of length `len`: the first out-of-bounds position, or else the first position whose
/// index repeats an earlier one, together with the first such earlier position.
pub open spec fn unsorted_failure(idx: Seq<usize>, len: int, kind: GetManyErrorKind) -> bool {
    match kind {
        GetManyErrorKind::OutOfBounds { many_idx, slice_idx, slice_len } => {
            &&& first_out_of_bounds(idx, len, many_idx as int)
            &&& slice_idx == idx[many_idx as int]
            &&& slice_len == len
        },
        GetManyErrorKind::NotSorted { .. } => false,
        GetManyErrorKind::NotUnique { many_idx_1, many_idx_2, slice_idx } => {
            &&& in_bounds(idx, len)
            &&& many_idx_1 < many_idx_2 < idx.len()
            &&& idx[many_idx_1 as int] == slice_idx
            &&& idx[many_idx_2 as int] == slice_idx
            &&& all_distinct(idx.subrange(0, many_idx_2 as int))
            &&& forall|j: int| 0 <= j < many_idx_1 ==> #[trigger] idx[j] != slice_idx
        },
    }
}

/// A prefix stays ascending one step further exactly when its last two indices ascend.
proof fn lemma_ascending_extend(s: Seq<usize>, k: int)
    requires
        1 <= k < s.len(),
    ensures
        strictly_ascending(s.subrange(0, k + 1)) <==> (strictly_ascending(s.subrange(0, k)) && s[k - 1] < s[k]),
{
    let p = s.subrange(0, k);
    let q = s.subrange(0, k + 1);
    if strictly_ascending(p) && s[k - 1] < s[k] {
        assert forall|a: int, b: int| 0 <= a < b < q.len() implies q[a] < q[b] by {
            if b < k {
                assert(p[a] < p[b]);
            } else if a < k - 1 {
                assert(p[a] < p[k - 1]);
            }
        }
    }
    if strictly_ascending(q) {
        assert(q[k - 1] < q[k]);
        assert forall|a: int, b: int| 0 <= a < b < p.len() implies p[a] < p[b] by {
            assert(q[a] < q[b]);
        }
    }
}

/// Ascending indices fit a buffer exactly when the last one does.
proof fn lemma_ascending_last_bound(s: Seq<usize>, len: int)
    requires
        strictly_ascending(s),
        s.len() > 0,
    ensures
        in_bounds(s, len) <==> s[s.len() - 1] < len,
{
    assert forall|k: int| 0 <= k < s.len() && s[s.len() - 1] < len implies #[trigger] s[k] < len by {
        if k < s.len() - 1 {
            assert(s[k] < s[s.len() - 1]);
        }
    }
}

/// Whether the indices are strictly ascending, by `N - 1` comparisons of neighbours.
pub fn is_strictly_ascending(indices: &[usize]) -> (r: bool)
    ensures
        r == strictly_ascending(indices@),
{
    let n = indices.len();
    if n == 0 {
        return true;
    }
    let mut valid = true;
    let mut k: usize = 1;
    assert(strictly_ascending(indices@.subrange(0, 1)));
    while k < n
        invariant
            1 <= k <= n,
            n == indices@.len(),
            valid == strictly_ascending(indices@.subrange(0, k as int)),
        decreases n - k,
    {
        proof {
            lemma_ascending_extend(indices@, k as int);
        }
        valid = valid && indices[k - 1] < indices[k];
        k = k + 1;
    }
    assert(indices@.subrange(0, n as int) == indices@);
    valid
}

/// Whether ascending indices fit a buffer of length `len`: only the last one needs checking.
pub fn last_in_bounds(indices: &[usize], len: usize) -> (r: bool)
    requires
        strictly_ascending(indices@),
    ensures
        r == in_bounds(indices@, len as int),
{
    let n = indices.len();
    if n == 0 {
        return true;
    }
    proof {
        lemma_ascending_last_bound(indices@, len as int);
    }
    indices[n - 1] < len
}

/// The check of the sorted policy: `N - 1` adjacent comparisons and one bound check of the last
/// index.
pub fn check_indices_valid(indices: &[usize], len: usize) -> (r: bool)
    ensures
        r == sorted_valid(indices@, len as int),
{
    is_strictly_ascending(indices) && last_in_bounds(indices, len)
}

/// The check of the unsorted policy: each index against the length and against every earlier
/// index.
pub fn get_many_check_valid(indices: &[usize], len: usize) -> (r: bool)
    ensures
        r == unsorted_valid(indices@, len as int),
{
    let n = indices.len();
    let mut valid = true;
    let mut i: usize = 0;
    while i < n
        invariant
            0 <= i <= n,
            n == indices@.len(),
            valid == unsorted_valid(indices@.subrange(0, i as int), len as int),
        decreases n - i,
    {
        let idx = indices[i];
        let ghost p = indices@.subrange(0, i as int);
        let ghost q = indices@.subrange(0, i + 1);
        let mut fresh = true;
        let mut j: usize = 0;
        while j < i
            invariant
                0 <= j <= i < n,
                n == indices@.len(),
                idx == indices@[i as int],
                fresh == forall|m: int| 0 <= m < j ==> #[trigger] indices@[m] != idx,
            decreases i - j,
        {
            fresh = fresh && indices[j] != idx;
            j = j + 1;
        }
        proof {
            if valid && fresh && idx < len {
                assert forall|a: int, b: int| 0 <= a < q.len() && 0 <= b < q.len() && a != b implies q[a] != q[b] by {
                    if a < i && b < i {
                        assert(p[a] != p[b]);
                    } else if a == i {
                        assert(indices@[b] != idx);
                    } else {
                        assert(indices@[a] != idx);
                    }
                }
                assert forall|m: int| 0 <= m < q.len() implies #[trigger] q[m] < len by {
                    if m < i {
                        assert(p[m] < len);
                    }
                }
            }
            if unsorted_valid(q, len as int) {
                assert forall|a: int, b: int| 0 <= a < p.len() && 0 <= b < p.len() && a != b implies p[a] != p[b] by {
                    assert(q[a] != q[b]);
                }
                assert forall|m: int| 0 <= m < p.len() implies #[trigger] p[m] < len by {
                    assert(q[m] < len);
                }
                assert(q[i as int] < len);
                assert forall|m: int| 0 <= m < i implies #[trigger] indices@[m] != idx by {
                    assert(q[m] != q[i as int]);
                }
            }
        }
        valid = valid && fresh && idx < len;
        i = i + 1;
    }
    assert(indices@.subrange(0, n as int) == indices@);
    valid
}

/// Finds the first out-of-bounds position, if there is one.
pub fn find_out_of_bounds(indices: &[usize], len: usize) -> (r: Option<usize>)
    ensures
        r is Some ==> first_out_of_bounds(indices@, len as int, r->Some_0 as int),
        r is None ==> in_bounds(indices@, len as int),
{
    let mut i: usize = 0;
    while i < indices.len()
        invariant
            0 <= i <= indices@.len(),
            forall|j: int| 0 <= j < i ==> #[trigger] indices@[j] < len,
        decreases indices@.len() - i,
    {
        if indices[i] >= len {
            return Some(i);
        }
        i = i + 1;
    }
    None
}

/// Why an unsorted index set is invalid: the first out-of-bounds position, or else the first
/// repeated index.
pub fn bound_check_failed(indices: &[usize], len: usize) -> (r: GetManyErrorKind)
    requires
        !unsorted_valid(indices@, len as int),
    ensures
        unsorted_failure(indices@, len as int, r),
{
    if let Some(many_idx) = find_out_of_bounds(indices, len) {
        return GetManyErrorKind::OutOfBounds { many_idx, slice_idx: indices[many_idx], slice_len: len };
    }
    let n = indices.len();
    let mut i: usize = 0;
    while i < n
        invariant
            0 <= i <= n,
            n == indices@.len(),
            in_bounds(indices@, len as int),
            !unsorted_valid(indices@, len as int),
            all_distinct(indices@.subrange(0, i as int)),
        decreases n - i,
    {
        let idx = indices[i];
        let mut j: usize = 0;
        while j < i
            invariant
                0 <= j <= i < n,
                n == indices@.len(),
                idx == indices@[i as int],
                in_bounds(indices@, len as int),
                all_distinct(indices@.subrange(0, i as int)),
                forall|m: int| 0 <= m < j ==> #[trigger] indices@[m] != idx,
            decreases i - j,
        {
            if indices[j] == idx {
                return GetManyErrorKind::NotUnique { many_idx_1: j, many_idx_2: i, slice_idx: idx };
            }
            j = j + 1;
        }
        proof {
            let p = indices@.subrange(0, i as int);
            let q = indices@.subrange(0, i + 1);
            assert forall|a: int, b: int| 0 <= a < q.len() && 0 <= b < q.len() && a != b implies q[a] != q[b] by {
                if a < i && b < i {
                    assert(p[a] != p[b]);
                } else if a == i {
                    assert(indices@[b] != idx);
                } else {
                    assert(indices@[a] != idx);
                }
            }
        }
        i = i + 1;
    }
    assert(indices@.subrange(0, n as int) == indices@);
    vstd::pervasive::unreached()
}

/// Why a sorted index set is invalid: the first out-of-bounds position, or else the first
/// adjacent pair that does not ascend.
pub fn sorted_bound_check_failed(indices: &[usize], len: usize) -> (r: GetManyErrorKind)
    requires
        !sorted_valid(indices@, len as int),
    ensures
        sorted_failure(indices@, len as int, r),
{
    if let Some(many_idx) = find_out_of_bounds(indices, len) {
        return GetManyErrorKind::OutOfBounds { many_idx, slice_idx: indices[many_idx], slice_len: len };
    }
    let n = indices.len();
    assert(strictly_ascending(indices@.subrange(0, 0)));
    assert(n > 0 ==> strictly_ascending(indices@.subrange(0, 1)));
    let mut k: usize = 1;
    while k < n
        invariant
            1 <= k,
            k <= n || n == 0,
            n == indices@.len(),
            in_bounds(indices@, len as int),
            !sorted_valid(indices@, len as int),
            n > 0 ==> strictly_ascending(indices@.subrange(0, k as int)),
        decreases n - k,
    {
        proof {
            lemma_ascending_extend(indices@, k as int);
        }
        let a = indices[k - 1];
        let b = indices[k];
        if a == b {
            return GetManyErrorKind::NotUnique { many_idx_1: k - 1, many_idx_2: k, slice_idx: a };
        } else if a > b {
            return GetManyErrorKind::NotSorted { many_idx_1: k - 1, many_idx_2: k };
        }
        k = k + 1;
    }
    proof {
        if n > 0 {
            assert(indices@.subrange(0, n as int) == indices@);
        } else {
            assert(strictly_ascending(indices@));
        }
    }
    vstd::pervasive::unreached()
}

} // verus!
