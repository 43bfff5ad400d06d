//! Half-open ranges select sub-slices.
use crate::materialize::into_array;
use crate::materialize_ranges::{get_many_ranges_internal, get_many_ranges_internal_mut, ranges_valid, reassembled};
use crate::slice_index::SliceIndices;
use core::ops::{Range, RangeInclusive};
use vstd::prelude::*;

verus! {

/// The starts of the ranges.
pub open spec fn starts_of(this: Seq<Range<usize>>) -> Seq<usize> {
    this.map_values(|r: Range<usize>| r.start)
}

/// The ends of the ranges.
pub open spec fn ends_of(this: Seq<Range<usize>>) -> Seq<usize> {
    this.map_values(|r: Range<usize>| r.end)
}

/// What is wrong with a set of ranges.
#[derive(Debug, Clone, Copy, PartialEq, Eq, Structural)]
pub enum RangeErrorKind {
    /// The range at `many_idx` starts after it ends.
    Reversed { many_idx: usize },
    /// The range at `many_idx` ends past a slice of length `slice_len`.
    OutOfBounds { many_idx: usize, slice_len: usize },
    /// The range at `many_idx_1` ends after the next one, at `many_idx_2`, starts: they overlap
    /// or are not sorted.
    Overlapping { many_idx_1: usize, many_idx_2: usize },
}

/// `kind` names what is reported for ranges that are not valid for a slice of length `len`:
/// the first reversed range; else the first range that ends out of bounds; else the first pair
/// of neighbours that overlap.
pub open spec fn range_failure(starts: Seq<usize>, ends: Seq<usize>, len: int, kind: RangeErrorKind) -> bool {
    match kind {
        RangeErrorKind::Reversed { many_idx } => {
            &&& many_idx < starts.len()
            &&& starts[many_idx as int] > ends[many_idx as int]
            &&& forall|j: int| 0 <= j < many_idx ==> #[trigger] starts[j] <= ends[j]
        },
        RangeErrorKind::OutOfBounds { many_idx, slice_len } => {
            &&& forall|j: int| 0 <= j < starts.len() ==> #[trigger] starts[j] <= ends[j]
            &&& many_idx < starts.len()
            &&& ends[many_idx as int] > len
            &&& forall|j: int| 0 <= j < many_idx ==> #[trigger] ends[j] <= len
            &&& slice_len == len
        },
        RangeErrorKind::Overlapping { many_idx_1, many_idx_2 } => {
            &&& forall|j: int| 0 <= j < starts.len() ==> #[trigger] starts[j] <= ends[j]
            &&& forall|j: int| 0 <= j < starts.len() ==> #[trigger] ends[j] <= len
            &&& many_idx_2 == many_idx_1 + 1
            &&& many_idx_2 < starts.len()
            &&& ends[many_idx_1 as int] > starts[many_idx_2 as int]
            &&& forall|j: int| 0 <= j < many_idx_1 ==> ends[j] <= #[trigger] starts[j + 1]
        },
    }
}

/// The starts and the ends of the ranges, as two vectors.
fn bounds_of<const N: usize>(indices: &[Range<usize>; N]) -> (r: (Vec<usize>, Vec<usize>))
    ensures
        r.0@ == starts_of(indices@),
        r.1@ == ends_of(indices@),
{
    let mut starts: Vec<usize> = Vec::new();
    let mut ends: Vec<usize> = Vec::new();
    let mut k: usize = 0;
    while k < N
        invariant
            0 <= k <= N,
            indices@.len() == N,
            starts@ == starts_of(indices@).subrange(0, k as int),
            ends@ == ends_of(indices@).subrange(0, k as int),
        decreases N - k,
    {
        starts.push(indices[k].start);
        ends.push(indices[k].end);
        k = k + 1;
        assert(starts@ =~= starts_of(indices@).subrange(0, k as int));
        assert(ends@ =~= ends_of(indices@).subrange(0, k as int));
    }
    assert(starts_of(indices@).subrange(0, N as int) =~= starts_of(indices@));
    assert(ends_of(indices@).subrange(0, N as int) =~= ends_of(indices@));
    (starts, ends)
}

/// The check of the range policy: each range well formed, each ending no later than the next
/// starts, and the last ending inside the slice.
pub fn check_range_indices_valid<const N: usize>(indices: &[Range<usize>; N], len: usize) -> (r: bool)
    ensures
        r == ranges_valid(starts_of(indices@), ends_of(indices@), len as int),
{
    let ghost s = starts_of(indices@);
    let ghost e = ends_of(indices@);
    if N == 0 {
        return true;
    }
    let mut k: usize = 1;
    while k < N
        invariant
            1 <= k <= N,
            indices@.len() == N,
            s == starts_of(indices@),
            e == ends_of(indices@),
            forall|j: int| 0 <= j < k - 1 ==> #[trigger] s[j] <= e[j],
            forall|j: int| 0 <= j < k - 1 ==> e[j] <= #[trigger] s[j + 1],
        decreases N - k,
    {
        let a = &indices[k - 1];
        let b = &indices[k];
        assert(s[k - 1] == a.start && e[k - 1] == a.end && s[k as int] == b.start);
        if !(a.start <= a.end && a.end <= b.start) {
            proof {
                if ranges_valid(s, e, len as int) {
                    assert(s[k - 1] <= e[k - 1]);
                    assert(e[k - 1] <= s[(k - 1) + 1]);
                }
            }
            return false;
        }
        k = k + 1;
    }
    let a = &indices[N - 1];
    assert(s[N - 1] == a.start && e[N - 1] == a.end);
    a.start <= a.end && a.end <= len
}

/// Why ranges are not valid for a slice of length `len`.
pub fn range_check_fail(indices: &[Range<usize>], len: usize) -> (r: RangeErrorKind)
    requires
        !ranges_valid(starts_of(indices@), ends_of(indices@), len as int),
    ensures
        range_failure(starts_of(indices@), ends_of(indices@), len as int, r),
{
    let ghost s = starts_of(indices@);
    let ghost e = ends_of(indices@);
    let n = indices.len();
    let mut i: usize = 0;
    while i < n
        invariant
            0 <= i <= n,
            n == indices@.len(),
            s == starts_of(indices@),
            e == ends_of(indices@),
            forall|j: int| 0 <= j < i ==> #[trigger] s[j] <= e[j],
        decreases n - i,
    {
        assert(s[i as int] == indices@[i as int].start && e[i as int] == indices@[i as int].end);
        if indices[i].start > indices[i].end {
            return RangeErrorKind::Reversed { many_idx: i };
        }
        i = i + 1;
    }
    i = 0;
    while i < n
        invariant
            0 <= i <= n,
            n == indices@.len(),
            s == starts_of(indices@),
            e == ends_of(indices@),
            forall|j: int| 0 <= j < n ==> #[trigger] s[j] <= e[j],
            forall|j: int| 0 <= j < i ==> #[trigger] e[j] <= len,
        decreases n - i,
    {
        assert(e[i as int] == indices@[i as int].end);
        if indices[i].end > len {
            return RangeErrorKind::OutOfBounds { many_idx: i, slice_len: len };
        }
        i = i + 1;
    }
    i = 0;
    while i + 1 < n
        invariant
            0 <= i,
            i < n || n == 0,
            n == indices@.len(),
            s == starts_of(indices@),
            e == ends_of(indices@),
            !ranges_valid(s, e, len as int),
            forall|j: int| 0 <= j < n ==> #[trigger] s[j] <= e[j],
            forall|j: int| 0 <= j < n ==> #[trigger] e[j] <= len,
            forall|j: int| 0 <= j < i ==> e[j] <= #[trigger] s[j + 1],
        decreases n - i,
    {
        assert(e[i as int] == indices@[i as int].end && s[i + 1] == indices@[i + 1].start);
        if indices[i].end > indices[i + 1].start {
            return RangeErrorKind::Overlapping { many_idx_1: i, many_idx_2: i + 1 };
        }
        i = i + 1;
    }
    vstd::pervasive::unreached()
}

impl<T, const N: usize> SliceIndices<T, N> for Range<usize> {
    type Output = [T];

    open spec fn spec_valid(this: Seq<Range<usize>>, len: int) -> bool {
        ranges_valid(starts_of(this), ends_of(this), len)
    }

    open spec fn spec_part(&self, s: Seq<T>, out: &[T]) -> bool {
        out@ == s.subrange(self.start as int, self.end as int)
    }

    open spec fn spec_written(this: Seq<Range<usize>>, before: Seq<T>, after: Seq<T>, later: Seq<&[T]>) -> bool {
        after == reassembled(before, starts_of(this), ends_of(this), later.map_values(|p: &[T]| p@))
    }

    fn get_many_unchecked(this: [Range<usize>; N], slice: &[T]) -> (r: [&[T]; N]) {
        let (starts, ends) = bounds_of(&this);
        let v = get_many_ranges_internal(slice, starts.as_slice(), ends.as_slice());
        let r = into_array(v);
        proof {
            assert forall|k: int| 0 <= k < N implies (#[trigger] r@[k])@ == slice@.subrange(this@[k].start as int, this@[k].end as int) by {
                assert(v@.map_values(|p: &[T]| p@)[k] == v@[k]@);
            }
        }
        r
    }

    fn get_many_unchecked_mut(this: [Range<usize>; N], slice: &mut [T]) -> (r: [&mut [T]; N]) {
        let (starts, ends) = bounds_of(&this);
        let v = get_many_ranges_internal_mut(slice, starts.as_slice(), ends.as_slice());
        let r = into_array(v);
        proof {
            let later = Seq::new(N as nat, |k: int| &*final(r@[k]));
            assert(later.map_values(|p: &[T]| p@) =~= Seq::new(v@.len(), |k: int| final(v@[k])@));
        }
        r
    }

    fn get_many(this: [Range<usize>; N], slice: &[T]) -> (r: Option<[&[T]; N]>) {
        if check_range_indices_valid(&this, slice.len()) {
            Some(Self::get_many_unchecked(this, slice))
        } else {
            None
        }
    }

    fn get_many_mut(this: [Range<usize>; N], slice: &mut [T]) -> (r: Option<[&mut [T]; N]>) {
        if check_range_indices_valid(&this, slice.len()) {
            Some(Self::get_many_unchecked_mut(this, slice))
        } else {
            None
        }
    }

    fn index_many(this: [Range<usize>; N], slice: &[T]) -> (r: [&[T]; N]) {
        Self::get_many_unchecked(this, slice)
    }

    fn index_many_mut(this: [Range<usize>; N], slice: &mut [T]) -> (r: [&mut [T]; N]) {
        Self::get_many_unchecked_mut(this, slice)
    }
}

} // verus!

verus! {

/// Relies on `RangeInclusive::start`, which returns a reference to the range's lower bound.
pub assume_specification<Idx>[ RangeInclusive::<Idx>::start ](r: &RangeInclusive<Idx>) -> (s: &Idx)
    ensures
        *s == r@.start,
;

/// Relies on `RangeInclusive::end`, which returns a reference to the range's upper bound.
pub assume_specification<Idx>[ RangeInclusive::<Idx>::end ](r: &RangeInclusive<Idx>) -> (e: &Idx)
    ensures
        *e == r@.end,
;

/// The lower bounds of inclusive ranges.
pub open spec fn inclusive_starts(this: Seq<RangeInclusive<usize>>) -> Seq<usize> {
    this.map_values(|r: RangeInclusive<usize>| r@.start)
}

/// The upper bounds of inclusive ranges.
pub open spec fn inclusive_ends(this: Seq<RangeInclusive<usize>>) -> Seq<usize> {
    this.map_values(|r: RangeInclusive<usize>| r@.end)
}

/// Every inclusive range is well formed, each ends before the next one starts, and the last one
/// ends inside a buffer of length `len`.
pub open spec fn inclusive_ranges_valid(starts: Seq<usize>, ends: Seq<usize>, len: int) -> bool {
    &&& starts.len() == ends.len()
    &&& forall|k: int| 0 <= k < starts.len() ==> #[trigger] starts[k] <= ends[k]
    &&& forall|k: int| 0 <= k < starts.len() - 1 ==> ends[k] < #[trigger] starts[k + 1]
    &&& starts.len() > 0 ==> ends[starts.len() - 1] < len
}

/// The ends, one past each upper bound.
pub open spec fn exclusive_ends(ends: Seq<usize>) -> Seq<usize> {
    ends.map_values(|e: usize| (e + 1) as usize)
}

/// Valid inclusive ranges are valid half-open ranges once each upper bound is moved one on.
proof fn lemma_inclusive_as_half_open(starts: Seq<usize>, ends: Seq<usize>, len: int)
    requires
        inclusive_ranges_valid(starts, ends, len),
        len <= usize::MAX,
    ensures
        forall|k: int| 0 <= k < ends.len() ==> #[trigger] ends[k] < len,
        ranges_valid(starts, exclusive_ends(ends), len),
{
    assert forall|k: int| 0 <= k < ends.len() implies #[trigger] ends[k] < len by {
        lemma_inclusive_end_bound(starts, ends, len, k);
    }
    let x = exclusive_ends(ends);
    assert forall|k: int| 0 <= k < starts.len() - 1 implies x[k] <= #[trigger] starts[k + 1] by {
        assert(ends[k] < starts[k + 1]);
    }
}

/// Each valid inclusive range ends inside the buffer.
proof fn lemma_inclusive_end_bound(starts: Seq<usize>, ends: Seq<usize>, len: int, k: int)
    requires
        inclusive_ranges_valid(starts, ends, len),
        0 <= k < ends.len(),
    ensures
        ends[k] < len,
    decreases ends.len() - k,
{
    if k < ends.len() - 1 {
        lemma_inclusive_end_bound(starts, ends, len, k + 1);
        assert(ends[k] < starts[k + 1]);
        assert(starts[k + 1] <= ends[k + 1]);
    }
}

/// The lower and upper bounds of inclusive ranges, as two vectors.
fn inclusive_bounds_of<const N: usize>(indices: &[RangeInclusive<usize>; N]) -> (r: (Vec<usize>, Vec<usize>))
    ensures
        r.0@ == inclusive_starts(indices@),
        r.1@ == inclusive_ends(indices@),
{
    let mut starts: Vec<usize> = Vec::new();
    let mut ends: Vec<usize> = Vec::new();
    let mut k: usize = 0;
    while k < N
        invariant
            0 <= k <= N,
            indices@.len() == N,
            starts@ == inclusive_starts(indices@).subrange(0, k as int),
            ends@ == inclusive_ends(indices@).subrange(0, k as int),
        decreases N - k,
    {
        starts.push(*indices[k].start());
        ends.push(*indices[k].end());
        k = k + 1;
        assert(starts@ =~= inclusive_starts(indices@).subrange(0, k as int));
        assert(ends@ =~= inclusive_ends(indices@).subrange(0, k as int));
    }
    assert(inclusive_starts(indices@).subrange(0, N as int) =~= inclusive_starts(indices@));
    assert(inclusive_ends(indices@).subrange(0, N as int) =~= inclusive_ends(indices@));
    (starts, ends)
}

/// The check of the inclusive range policy.
pub fn check_range_inclusive_indices_valid<const N: usize>(indices: &[RangeInclusive<usize>; N], len: usize) -> (r: bool)
    ensures
        r == inclusive_ranges_valid(inclusive_starts(indices@), inclusive_ends(indices@), len as int),
{
    let (s, e) = inclusive_bounds_of(indices);
    if N == 0 {
        return true;
    }
    let mut k: usize = 1;
    while k < N
        invariant
            1 <= k <= N,
            s@ == inclusive_starts(indices@),
            e@ == inclusive_ends(indices@),
            s@.len() == N,
            e@.len() == N,
            forall|j: int| 0 <= j < k - 1 ==> #[trigger] s@[j] <= e@[j],
            forall|j: int| 0 <= j < k - 1 ==> e@[j] < #[trigger] s@[j + 1],
        decreases N - k,
    {
        if !(s[k - 1] <= e[k - 1] && e[k - 1] < s[k]) {
            proof {
                if inclusive_ranges_valid(s@, e@, len as int) {
                    assert(s@[k - 1] <= e@[k - 1]);
                    assert(e@[k - 1] < s@[(k - 1) + 1]);
                }
            }
            return false;
        }
        k = k + 1;
    }
    s[N - 1] <= e[N - 1] && e[N - 1] < len
}

/// `kind` names what is reported for inclusive ranges that are not valid for a slice of length
/// `len`: the first reversed range; else the first range that ends out of bounds; else the first
/// pair of neighbours that overlap.
pub open spec fn inclusive_range_failure(starts: Seq<usize>, ends: Seq<usize>, len: int, kind: RangeErrorKind) -> bool {
    match kind {
        RangeErrorKind::Reversed { many_idx } => {
            &&& many_idx < starts.len()
            &&& starts[many_idx as int] > ends[many_idx as int]
            &&& forall|j: int| 0 <= j < many_idx ==> #[trigger] starts[j] <= ends[j]
        },
        RangeErrorKind::OutOfBounds { many_idx, slice_len } => {
            &&& forall|j: int| 0 <= j < starts.len() ==> #[trigger] starts[j] <= ends[j]
            &&& many_idx < starts.len()
            &&& ends[many_idx as int] >= len
            &&& forall|j: int| 0 <= j < many_idx ==> #[trigger] ends[j] < len
            &&& slice_len == len
        },
        RangeErrorKind::Overlapping { many_idx_1, many_idx_2 } => {
            &&& forall|j: int| 0 <= j < starts.len() ==> #[trigger] starts[j] <= ends[j]
            &&& forall|j: int| 0 <= j < starts.len() ==> #[trigger] ends[j] < len
            &&& many_idx_2 == many_idx_1 + 1
            &&& many_idx_2 < starts.len()
            &&& ends[many_idx_1 as int] >= starts[many_idx_2 as int]
            &&& forall|j: int| 0 <= j < many_idx_1 ==> ends[j] < #[trigger] starts[j + 1]
        },
    }
}

/// Why inclusive ranges are not valid for a slice of length `len`.
pub fn range_inclusive_check_fail<const N: usize>(indices: &[RangeInclusive<usize>; N], len: usize) -> (r: RangeErrorKind)
    requires
        !inclusive_ranges_valid(inclusive_starts(indices@), inclusive_ends(indices@), len as int),
    ensures
        inclusive_range_failure(inclusive_starts(indices@), inclusive_ends(indices@), len as int, r),
{
    let (s, e) = inclusive_bounds_of(indices);
    let mut i: usize = 0;
    while i < N
        invariant
            0 <= i <= N,
            s@ == inclusive_starts(indices@),
            e@ == inclusive_ends(indices@),
            s@.len() == N,
            e@.len() == N,
            forall|j: int| 0 <= j < i ==> #[trigger] s@[j] <= e@[j],
        decreases N - i,
    {
        if s[i] > e[i] {
            return RangeErrorKind::Reversed { many_idx: i };
        }
        i = i + 1;
    }
    i = 0;
    while i < N
        invariant
            0 <= i <= N,
            s@ == inclusive_starts(indices@),
            e@ == inclusive_ends(indices@),
            s@.len() == N,
            e@.len() == N,
            forall|j: int| 0 <= j < N ==> #[trigger] s@[j] <= e@[j],
            forall|j: int| 0 <= j < i ==> #[trigger] e@[j] < len,
        decreases N - i,
    {
        if e[i] >= len {
            return RangeErrorKind::OutOfBounds { many_idx: i, slice_len: len };
        }
        i = i + 1;
    }
    i = 1;
    while i < N
        invariant
            1 <= i,
            i <= N || N == 0,
            s@ == inclusive_starts(indices@),
            e@ == inclusive_ends(indices@),
            s@.len() == N,
            e@.len() == N,
            !inclusive_ranges_valid(s@, e@, len as int),
            forall|j: int| 0 <= j < N ==> #[trigger] s@[j] <= e@[j],
            forall|j: int| 0 <= j < N ==> #[trigger] e@[j] < len,
            forall|j: int| 0 <= j < i - 1 ==> e@[j] < #[trigger] s@[j + 1],
        decreases N - i,
    {
        if e[i - 1] >= s[i] {
            return RangeErrorKind::Overlapping { many_idx_1: i - 1, many_idx_2: i };
        }
        i = i + 1;
    }
    proof {
        if N > 0 {
            assert(e@[N - 1] < len);
        }
    }
    vstd::pervasive::unreached()
}

/// Half-open vectors of bounds for valid inclusive ranges.
fn half_open_bounds_of<const N: usize>(indices: &[RangeInclusive<usize>; N], len: usize) -> (r: (Vec<usize>, Vec<usize>))
    requires
        inclusive_ranges_valid(inclusive_starts(indices@), inclusive_ends(indices@), len as int),
    ensures
        r.0@ == inclusive_starts(indices@),
        r.1@ == exclusive_ends(inclusive_ends(indices@)),
        ranges_valid(r.0@, r.1@, len as int),
        forall|k: int| 0 <= k < N ==> #[trigger] r.1@[k] == indices@[k]@.end + 1,
{
    let (starts, ends) = inclusive_bounds_of(indices);
    proof {
        lemma_inclusive_as_half_open(starts@, ends@, len as int);
    }
    let mut past: Vec<usize> = Vec::new();
    let mut k: usize = 0;
    while k < N
        invariant
            0 <= k <= N,
            ends@.len() == N,
            forall|j: int| 0 <= j < N ==> #[trigger] ends@[j] < len,
            past@ == exclusive_ends(ends@).subrange(0, k as int),
        decreases N - k,
    {
        assert(ends@[k as int] < len);
        past.push(ends[k] + 1);
        k = k + 1;
        assert(past@ =~= exclusive_ends(ends@).subrange(0, k as int));
    }
    assert(exclusive_ends(ends@).subrange(0, N as int) =~= exclusive_ends(ends@));
    assert forall|k: int| 0 <= k < N implies #[trigger] past@[k] == indices@[k]@.end + 1 by {
        assert(ends@[k] == indices@[k]@.end);
        assert(ends@[k] < len);
    }
    (starts, past)
}

impl<T, const N: usize> SliceIndices<T, N> for RangeInclusive<usize> {
    type Output = [T];

    open spec fn spec_valid(this: Seq<RangeInclusive<usize>>, len: int) -> bool {
        inclusive_ranges_valid(inclusive_starts(this), inclusive_ends(this), len)
    }

    open spec fn spec_part(&self, s: Seq<T>, out: &[T]) -> bool {
        out@ == s.subrange(self@.start as int, self@.end + 1)
    }

    open spec fn spec_written(this: Seq<RangeInclusive<usize>>, before: Seq<T>, after: Seq<T>, later: Seq<&[T]>) -> bool {
        after == reassembled(before, inclusive_starts(this), exclusive_ends(inclusive_ends(this)), later.map_values(|p: &[T]| p@))
    }

    fn get_many_unchecked(this: [RangeInclusive<usize>; N], slice: &[T]) -> (r: [&[T]; N]) {
        let (starts, ends) = half_open_bounds_of(&this, slice.len());
        let v = get_many_ranges_internal(slice, starts.as_slice(), ends.as_slice());
        let r = into_array(v);
        proof {
            assert forall|k: int| 0 <= k < N implies (#[trigger] r@[k])@ == slice@.subrange(this@[k]@.start as int, this@[k]@.end + 1) by {
                assert(v@.map_values(|p: &[T]| p@)[k] == v@[k]@);
                assert(ends@[k] == this@[k]@.end + 1);
            }
        }
        r
    }

    fn get_many_unchecked_mut(this: [RangeInclusive<usize>; N], slice: &mut [T]) -> (r: [&mut [T]; N]) {
        let ghost before = old(slice)@;
        let (starts, ends) = half_open_bounds_of(&this, slice.len());
        let v = get_many_ranges_internal_mut(slice, starts.as_slice(), ends.as_slice());
        let r = into_array(v);
        proof {
            let later = Seq::new(N as nat, |k: int| &*final(r@[k]));
            assert(later.map_values(|p: &[T]| p@) =~= Seq::new(v@.len(), |k: int| final(v@[k])@));
            assert forall|k: int| 0 <= k < N implies #[trigger] r@[k]@ == before.subrange(this@[k]@.start as int, this@[k]@.end + 1) by {
                assert(ends@[k] == this@[k]@.end + 1);
            }
        }
        r
    }

    fn get_many(this: [RangeInclusive<usize>; N], slice: &[T]) -> (r: Option<[&[T]; N]>) {
        if check_range_inclusive_indices_valid(&this, slice.len()) {
            Some(Self::get_many_unchecked(this, slice))
        } else {
            None
        }
    }

    fn get_many_mut(this: [RangeInclusive<usize>; N], slice: &mut [T]) -> (r: Option<[&mut [T]; N]>) {
        if check_range_inclusive_indices_valid(&this, slice.len()) {
            Some(Self::get_many_unchecked_mut(this, slice))
        } else {
            None
        }
    }

    fn index_many(this: [RangeInclusive<usize>; N], slice: &[T]) -> (r: [&[T]; N]) {
        Self::get_many_unchecked(this, slice)
    }

    fn index_many_mut(this: [RangeInclusive<usize>; N], slice: &mut [T]) -> (r: [&mut [T]; N]) {
        Self::get_many_unchecked_mut(this, slice)
    }
}

} // verus!
