//! The sorted API of [`crate::simple`], reporting an invalid index set as a structured error.
use crate::materialize::{get_many_internal, get_many_internal_mut};
use crate::model::{keeps_others, lemma_ascending_distinct, picks, picks_mut, sorted_valid, unsorted_valid};
use crate::validate::{check_indices_valid, sorted_bound_check_failed, sorted_failure};
use vstd::prelude::*;

verus! {

/// What is wrong with an index set.
#[derive(Debug, Clone, Copy, PartialEq, Eq, Structural)]
pub enum GetManyErrorKind {
    /// The index at position `many_idx`, `slice_idx`, does not fit a slice of length `slice_len`.
    OutOfBounds { many_idx: usize, slice_idx: usize, slice_len: usize },
    /// The index at position `many_idx_1` is greater than the one at `many_idx_2`, which comes
    /// after it.
    NotSorted { many_idx_1: usize, many_idx_2: usize },
    /// Positions `many_idx_1` and `many_idx_2` both hold the index `slice_idx`.
    NotUnique { many_idx_1: usize, many_idx_2: usize, slice_idx: usize },
}

/// The error of the sorted API: the index set that was refused and the length of the slice it
/// was refused for. Which violation it is, [`GetManyError::kind`] works out again.
pub struct GetManyError<const N: usize> {
    indices: [usize; N],
    len: usize,
}

impl<const N: usize> GetManyError<N> {
    /// An error holds only index sets that are invalid for its length.
    #[verifier::type_invariant]
    spec fn refused(&self) -> bool {
        !sorted_valid(self.indices@, self.len as int)
    }

    /// The index set that was refused.
    pub closed spec fn spec_indices(&self) -> Seq<usize> {
        self.indices@
    }

    /// The length of the slice it was refused for.
    pub closed spec fn spec_len(&self) -> usize {
        self.len
    }

    /// The index set that was refused.
    pub fn indices(&self) -> (r: [usize; N])
        ensures
            r@ == self.spec_indices(),
    {
        self.indices
    }

    /// The length of the slice it was refused for.
    pub fn slice_len(&self) -> (r: usize)
        ensures
            r == self.spec_len(),
    {
        self.len
    }

    /// What is wrong with the index set: the first out-of-bounds position, or else the first
    /// neighbours that do not ascend.
    pub fn kind(&self) -> (r: GetManyErrorKind)
        ensures
            sorted_failure(self.spec_indices(), self.spec_len() as int, r),
    {
        proof {
            use_type_invariant(self);
        }
        sorted_bound_check_failed(self.indices.as_slice(), self.len)
    }
}

/// Shared references to the elements that `indices` names, without any check: the caller proves
/// that the indices are distinct and in bounds.
pub fn index_many_unchecked<'a, T, const N: usize>(slice: &'a [T], indices: [usize; N]) -> (r: [&'a T; N])
    requires
        unsorted_valid(indices@, slice@.len() as int),
    ensures
        picks(slice@, indices@, r@),
{
    get_many_internal(slice, &indices)
}

/// Mutable references to the elements that `indices` names, without any check: the caller proves
/// that the indices are distinct and in bounds.
pub fn index_many_mut_unchecked<'a, T, const N: usize>(slice: &'a mut [T], indices: [usize; N]) -> (r: [&'a mut T; N])
    requires
        unsorted_valid(indices@, old(slice)@.len() as int),
    ensures
        picks_mut(old(slice)@, indices@, r@),
        keeps_others(old(slice)@, final(slice)@, indices@),
        forall|k: int| 0 <= k < N ==> final(slice)@[indices@[k] as int] == *final(#[trigger] r@[k]),
{
    get_many_internal_mut(slice, &indices)
}

/// Shared references to the elements that `indices` names, or the error that holds the indices
/// and the length, unless the indices are strictly ascending and in bounds.
pub fn get_many<'a, T, const N: usize>(slice: &'a [T], indices: [usize; N]) -> (r: Result<[&'a T; N], GetManyError<N>>)
    ensures
        r is Ok <==> sorted_valid(indices@, slice@.len() as int),
        r is Ok ==> picks(slice@, indices@, r->Ok_0@),
        r is Err ==> r->Err_0.spec_indices() == indices@ && r->Err_0.spec_len() == slice@.len(),
{
    if !check_indices_valid(indices.as_slice(), slice.len()) {
        return Err(GetManyError { indices, len: slice.len() });
    }
    proof {
        lemma_ascending_distinct(indices@);
    }
    Ok(index_many_unchecked(slice, indices))
}

/// Mutable references to the elements that `indices` names, or the error that holds the indices
/// and the length, with the slice untouched, unless the indices are strictly ascending and in
/// bounds.
pub fn get_many_mut<'a, T, const N: usize>(slice: &'a mut [T], indices: [usize; N]) -> (r: Result<[&'a mut T; N], GetManyError<N>>)
    ensures
        r is Ok <==> sorted_valid(indices@, old(slice)@.len() as int),
        r is Ok ==> picks_mut(old(slice)@, indices@, r->Ok_0@),
        r is Ok ==> keeps_others(old(slice)@, final(slice)@, indices@),
        r is Ok ==> forall|k: int| 0 <= k < N ==> final(slice)@[indices@[k] as int] == *final(#[trigger] r->Ok_0@[k]),
        r is Err ==> r->Err_0.spec_indices() == indices@ && r->Err_0.spec_len() == old(slice)@.len(),
        r is Err ==> final(slice)@ == old(slice)@,
{
    if !check_indices_valid(indices.as_slice(), slice.len()) {
        return Err(GetManyError { indices, len: slice.len() });
    }
    proof {
        lemma_ascending_distinct(indices@);
    }
    Ok(index_many_mut_unchecked(slice, indices))
}

/// Shared references to the elements that `indices` names; the indices must be strictly
/// ascending and in bounds.
pub fn index_many<'a, T, const N: usize>(slice: &'a [T], indices: [usize; N]) -> (r: [&'a T; N])
    requires
        sorted_valid(indices@, slice@.len() as int),
    ensures
        picks(slice@, indices@, r@),
{
    match get_many(slice, indices) {
        Ok(s) => s,
        Err(_) => vstd::pervasive::unreached(),
    }
}

/// Mutable references to the elements that `indices` names; the indices must be strictly
/// ascending and in bounds.
pub fn index_many_mut<'a, T, const N: usize>(slice: &'a mut [T], indices: [usize; N]) -> (r: [&'a mut T; N])
    requires
        sorted_valid(indices@, old(slice)@.len() as int),
    ensures
        picks_mut(old(slice)@, indices@, r@),
        keeps_others(old(slice)@, final(slice)@, indices@),
        forall|k: int| 0 <= k < N ==> final(slice)@[indices@[k] as int] == *final(#[trigger] r@[k]),
{
    match get_many_mut(slice, indices) {
        Ok(s) => s,
        Err(_) => vstd::pervasive::unreached(),
    }
}

} // verus!
