//! A generic variant of the API, indexed by any type implementing [`Indices`].
//!
//! - `[usize; N]` works like the sorted API of [`crate::simple`].
//! - [`PresortedIndices`] holds indices that were found ascending when it was made.
//! - [`UnsortedIndices`] and [`UnsortedSpecializedIndices`] allow any order.
use crate::materialize::{get_many_internal, get_many_internal_mut};
use crate::model::{keeps_others, picks, picks_mut, unsorted_valid};
use crate::simple_result::GetManyErrorKind;
use vstd::prelude::*;

pub mod presorted_indices;
pub mod sorted_indices;
pub mod unsorted_indices;
pub mod unsorted_specialized_indices;

pub use presorted_indices::PresortedIndices;
pub use presorted_indices::PresortedIndicesError;
pub use unsorted_indices::UnsortedIndices;
pub use unsorted_specialized_indices::UnsortedSpecializedIndices;

verus! {

/// An index policy: a set of `N` indices together with the rule that says when it is valid for a
/// slice, and the rule that names what is wrong when it is not.
pub trait Indices<const N: usize>: Copy {
    /// The `N` indices, in the order in which references are handed out.
    spec fn spec_raw(&self) -> Seq<usize>;

    /// Whether the indices are valid for a slice of length `len`.
    spec fn spec_valid(&self, len: int) -> bool;

    /// Whether `kind` is what is reported for a slice of length `len`.
    spec fn spec_failure(&self, len: int, kind: GetManyErrorKind) -> bool;

    /// Every policy's validity makes the indices distinct and in bounds: that is all that handing
    /// out the references needs.
    proof fn lemma_valid_disjoint(&self, len: int)
        requires
            self.spec_valid(len),
        ensures
            self.spec_raw().len() == N,
            unsorted_valid(self.spec_raw(), len),
    ;

    /// The indices as an array.
    fn to_raw_indices(&self) -> (r: [usize; N])
        ensures
            r@ == self.spec_raw(),
    ;

    /// Whether the indices are valid for a slice of length `len`.
    fn is_valid(&self, len: usize) -> (r: bool)
        ensures
            r == self.spec_valid(len as int),
    ;

    /// What is wrong with indices that are not valid for a slice of length `len`.
    fn describe_failure(&self, len: usize) -> (r: GetManyErrorKind)
        requires
            !self.spec_valid(len as int),
        ensures
            self.spec_failure(len as int, r),
    ;
}

/// Shared references to the elements that `indices` names, without any check: the caller proves
/// that the indices are distinct and in bounds.
pub fn index_many_unchecked<'a, T, I: Indices<N>, const N: usize>(slice: &'a [T], indices: I) -> (r: [&'a T; N])
    requires
        unsorted_valid(indices.spec_raw(), slice@.len() as int),
    ensures
        picks(slice@, indices.spec_raw(), r@),
{
    let raw = indices.to_raw_indices();
    get_many_internal(slice, &raw)
}

/// Mutable references to the elements that `indices` names, without any check: the caller proves
/// that the indices are distinct and in bounds.
pub fn index_many_mut_unchecked<'a, T, I: Indices<N>, const N: usize>(slice: &'a mut [T], indices: I) -> (r: [&'a mut T; N])
    requires
        unsorted_valid(indices.spec_raw(), old(slice)@.len() as int),
    ensures
        picks_mut(old(slice)@, indices.spec_raw(), r@),
        keeps_others(old(slice)@, final(slice)@, indices.spec_raw()),
        forall|k: int| 0 <= k < N ==> final(slice)@[indices.spec_raw()[k] as int] == *final(#[trigger] r@[k]),
{
    let raw = indices.to_raw_indices();
    get_many_internal_mut(slice, &raw)
}

/// Shared references to the elements that `indices` names, or `None` unless the indices are
/// valid under their policy.
pub fn get_many<'a, T, I: Indices<N>, const N: usize>(slice: &'a [T], indices: I) -> (r: Option<[&'a T; N]>)
    ensures
        r is Some <==> indices.spec_valid(slice@.len() as int),
        r is Some ==> picks(slice@, indices.spec_raw(), r->Some_0@),
{
    if !indices.is_valid(slice.len()) {
        return None;
    }
    proof {
        indices.lemma_valid_disjoint(slice@.len() as int);
    }
    Some(index_many_unchecked(slice, indices))
}

/// Mutable references to the elements that `indices` names, or `None`, with the slice untouched,
/// unless the indices are valid under their policy.
pub fn get_many_mut<'a, T, I: Indices<N>, const N: usize>(slice: &'a mut [T], indices: I) -> (r: Option<[&'a mut T; N]>)
    ensures
        r is Some <==> indices.spec_valid(old(slice)@.len() as int),
        r is Some ==> picks_mut(old(slice)@, indices.spec_raw(), r->Some_0@),
        r is Some ==> keeps_others(old(slice)@, final(slice)@, indices.spec_raw()),
        r is Some ==> forall|k: int| 0 <= k < N ==> final(slice)@[indices.spec_raw()[k] as int] == *final(#[trigger] r->Some_0@[k]),
        r is None ==> final(slice)@ == old(slice)@,
{
    if !indices.is_valid(slice.len()) {
        return None;
    }
    proof {
        indices.lemma_valid_disjoint(old(slice)@.len() as int);
    }
    Some(index_many_mut_unchecked(slice, indices))
}

/// Shared references to the elements that `indices` names; the indices must be valid under
/// their policy.
pub fn index_many<'a, T, I: Indices<N>, const N: usize>(slice: &'a [T], indices: I) -> (r: [&'a T; N])
    requires
        indices.spec_valid(slice@.len() as int),
    ensures
        picks(slice@, indices.spec_raw(), r@),
{
    get_many(slice, indices).unwrap()
}

/// Mutable references to the elements that `indices` names; the indices must be valid under
/// their policy.
pub fn index_many_mut<'a, T, I: Indices<N>, const N: usize>(slice: &'a mut [T], indices: I) -> (r: [&'a mut T; N])
    requires
        indices.spec_valid(old(slice)@.len() as int),
    ensures
        picks_mut(old(slice)@, indices.spec_raw(), r@),
        keeps_others(old(slice)@, final(slice)@, indices.spec_raw()),
        forall|k: int| 0 <= k < N ==> final(slice)@[indices.spec_raw()[k] as int] == *final(#[trigger] r@[k]),
{
    get_many_mut(slice, indices).unwrap()
}

} // verus!
