//! The sorted API, indexed by a plain `[usize; N]`.
//!
//! The indices have to be strictly ascending. Then `N - 1` comparisons between neighbours and one
//! comparison of the last index against the length decide whether they are valid.
use crate::materialize::{get_many_internal, get_many_internal_mut};
use crate::model::{lemma_ascending_distinct, picks, keeps_others, picks_mut, sorted_valid, unsorted_valid};
use crate::validate::check_indices_valid;
use vstd::prelude::*;

verus! {

/// Shared references to the elements that `indices` names, without any check: the caller proves
/// that the indices are distinct and in bounds.
pub fn index_many_unchecked<'a, T, const N: usize>(slice: &'a [T], indices: [usize; N]) -> (r: [&'a T; N])
    requires
        unsorted_valid(indices@, slice@.len() as int),
    ensures
        picks(slice@, indices@, r@),
{
    get_many_internal(slice, &indices)
}

/// Mutable references to the elements that `indices` names, without any check: the caller proves
/// that the indices are distinct and in bounds.
pub fn index_many_mut_unchecked<'a, T, const N: usize>(slice: &'a mut [T], indices: [usize; N]) -> (r: [&'a mut T; N])
    requires
        unsorted_valid(indices@, old(slice)@.len() as int),
    ensures
        picks_mut(old(slice)@, indices@, r@),
        keeps_others(old(slice)@, final(slice)@, indices@),
        forall|k: int| 0 <= k < N ==> final(slice)@[indices@[k] as int] == *final(#[trigger] r@[k]),
{
    get_many_internal_mut(slice, &indices)
}

/// Shared references to the elements that `indices` names, or `None` unless the indices are
/// strictly ascending and in bounds.
pub fn get_many<'a, T, const N: usize>(slice: &'a [T], indices: [usize; N]) -> (r: Option<[&'a T; N]>)
    ensures
        r is Some <==> sorted_valid(indices@, slice@.len() as int),
        r is Some ==> picks(slice@, indices@, r->Some_0@),
{
    if !check_indices_valid(indices.as_slice(), slice.len()) {
        return None;
    }
    proof {
        lemma_ascending_distinct(indices@);
    }
    Some(index_many_unchecked(slice, indices))
}

/// Mutable references to the elements that `indices` names, or `None`, with the slice untouched,
/// unless the indices are strictly ascending and in bounds.
pub fn get_many_mut<'a, T, const N: usize>(slice: &'a mut [T], indices: [usize; N]) -> (r: Option<[&'a mut T; N]>)
    ensures
        r is Some <==> sorted_valid(indices@, old(slice)@.len() as int),
        r is Some ==> picks_mut(old(slice)@, indices@, r->Some_0@),
        r is Some ==> keeps_others(old(slice)@, final(slice)@, indices@),
        r is Some ==> forall|k: int| 0 <= k < N ==> final(slice)@[indices@[k] as int] == *final(#[trigger] r->Some_0@[k]),
        r is None ==> final(slice)@ == old(slice)@,
{
    if !check_indices_valid(indices.as_slice(), slice.len()) {
        return None;
    }
    proof {
        lemma_ascending_distinct(indices@);
    }
    Some(index_many_mut_unchecked(slice, indices))
}

/// Shared references to the elements that `indices` names; the indices must be strictly
/// ascending and in bounds.
pub fn index_many<'a, T, const N: usize>(slice: &'a [T], indices: [usize; N]) -> (r: [&'a T; N])
    requires
        sorted_valid(indices@, slice@.len() as int),
    ensures
        picks(slice@, indices@, r@),
{
    get_many(slice, indices).unwrap()
}

/// Mutable references to the elements that `indices` names; the indices must be strictly
/// ascending and in bounds.
pub fn index_many_mut<'a, T, const N: usize>(slice: &'a mut [T], indices: [usize; N]) -> (r: [&'a mut T; N])
    requires
        sorted_valid(indices@, old(slice)@.len() as int),
    ensures
        picks_mut(old(slice)@, indices@, r@),
        keeps_others(old(slice)@, final(slice)@, indices@),
        forall|k: int| 0 <= k < N ==> final(slice)@[indices@[k] as int] == *final(#[trigger] r@[k]),
{
    get_many_mut(slice, indices).unwrap()
}

} // verus!
