//! The API as methods of slices, with the unsorted policy and several shapes of error.
use crate::materialize::get_many_internal_mut;
use crate::model::{in_bounds, keeps_others, picks_mut, unsorted_valid};
use crate::validate::{find_out_of_bounds, get_many_check_valid};
use vstd::prelude::*;

verus! {

/// Disjoint mutable access to several elements of a slice, by unique indices in any order.
pub trait SliceExt<T> {
    /// The elements.
    spec fn spec_elems(&self) -> Seq<T>;

    /// Mutable references to the elements that `indices` names, without any check: the caller
    /// proves that the indices are distinct and in bounds.
    fn get_many_unchecked_mut<const N: usize>(&mut self, indices: [usize; N]) -> (r: [&mut T; N])
        requires
            unsorted_valid(indices@, old(self).spec_elems().len() as int),
        ensures
            picks_mut(old(self).spec_elems(), indices@, r@),
            keeps_others(old(self).spec_elems(), final(self).spec_elems(), indices@),
            forall|k: int| 0 <= k < N ==> final(self).spec_elems()[indices@[k] as int] == *final(#[trigger] r@[k]),
    ;

    /// Mutable references to the elements that `indices` names, or `None` unless the indices are
    /// distinct and in bounds.
    fn get_many_mut_opt<const N: usize>(&mut self, indices: [usize; N]) -> (r: Option<[&mut T; N]>)
        ensures
            r is Some <==> unsorted_valid(indices@, old(self).spec_elems().len() as int),
            r is Some ==> picks_mut(old(self).spec_elems(), indices@, r->Some_0@),
            r is Some ==> keeps_others(old(self).spec_elems(), final(self).spec_elems(), indices@),
            r is Some ==> forall|k: int| 0 <= k < N ==> final(self).spec_elems()[indices@[k] as int] == *final(#[trigger] r->Some_0@[k]),
            r is None ==> final(self).spec_elems() == old(self).spec_elems(),
    ;

    /// As [`SliceExt::get_many_mut_opt`], with an error that says nothing more.
    fn get_many_mut_res_simple<const N: usize>(&mut self, indices: [usize; N]) -> (r: Result<[&mut T; N], ErrorSimple<N>>)
        ensures
            r is Ok <==> unsorted_valid(indices@, old(self).spec_elems().len() as int),
            r is Ok ==> picks_mut(old(self).spec_elems(), indices@, r->Ok_0@),
            r is Ok ==> keeps_others(old(self).spec_elems(), final(self).spec_elems(), indices@),
            r is Ok ==> forall|k: int| 0 <= k < N ==> final(self).spec_elems()[indices@[k] as int] == *final(#[trigger] r->Ok_0@[k]),
            r is Err ==> final(self).spec_elems() == old(self).spec_elems(),
    ;

    /// As [`SliceExt::get_many_mut_opt`], with an error that names the kind of violation:
    /// `OutOfBounds` when some index does not fit, else `NotUnique`.
    fn get_many_mut_res_direct<const N: usize>(&mut self, indices: [usize; N]) -> (r: Result<[&mut T; N], ErrorKind>)
        ensures
            r is Ok <==> unsorted_valid(indices@, old(self).spec_elems().len() as int),
            r is Ok ==> picks_mut(old(self).spec_elems(), indices@, r->Ok_0@),
            r is Ok ==> keeps_others(old(self).spec_elems(), final(self).spec_elems(), indices@),
            r is Ok ==> forall|k: int| 0 <= k < N ==> final(self).spec_elems()[indices@[k] as int] == *final(#[trigger] r->Ok_0@[k]),
            r is Err ==> r->Err_0 == error_kind(indices@, old(self).spec_elems().len() as int),
            r is Err ==> final(self).spec_elems() == old(self).spec_elems(),
    ;

    /// As [`SliceExt::get_many_mut_opt`], with an error that holds the indices and the length.
    fn get_many_mut_res_indirect<const N: usize>(&mut self, indices: [usize; N]) -> (r: Result<[&mut T; N], Error<N>>)
        ensures
            r is Ok <==> unsorted_valid(indices@, old(self).spec_elems().len() as int),
            r is Ok ==> picks_mut(old(self).spec_elems(), indices@, r->Ok_0@),
            r is Ok ==> keeps_others(old(self).spec_elems(), final(self).spec_elems(), indices@),
            r is Ok ==> forall|k: int| 0 <= k < N ==> final(self).spec_elems()[indices@[k] as int] == *final(#[trigger] r->Ok_0@[k]),
            r is Err ==> r->Err_0.spec_indices() == indices@ && r->Err_0.spec_slice_len() == old(self).spec_elems().len(),
            r is Err ==> final(self).spec_elems() == old(self).spec_elems(),
    ;

    /// As [`SliceExt::get_many_mut_res_indirect`], with the error in the compact layout.
    fn get_many_mut_res_indirect_niche<const N: usize>(&mut self, indices: [usize; N]) -> (r: Result<[&mut T; N], ErrorNiche<N>>)
        ensures
            r is Ok <==> unsorted_valid(indices@, old(self).spec_elems().len() as int),
            r is Ok ==> picks_mut(old(self).spec_elems(), indices@, r->Ok_0@),
            r is Ok ==> keeps_others(old(self).spec_elems(), final(self).spec_elems(), indices@),
            r is Ok ==> forall|k: int| 0 <= k < N ==> final(self).spec_elems()[indices@[k] as int] == *final(#[trigger] r->Ok_0@[k]),
            r is Err ==> r->Err_0.spec_indices() == indices@ && r->Err_0.spec_slice_len() == old(self).spec_elems().len(),
            r is Err ==> final(self).spec_elems() == old(self).spec_elems(),
    ;
}

impl<T> SliceExt<T> for [T] {
    open spec fn spec_elems(&self) -> Seq<T> {
        self@
    }

    fn get_many_unchecked_mut<const N: usize>(&mut self, indices: [usize; N]) -> (r: [&mut T; N]) {
        get_many_internal_mut(self, &indices)
    }

    fn get_many_mut_opt<const N: usize>(&mut self, indices: [usize; N]) -> (r: Option<[&mut T; N]>) {
        if !get_many_check_valid(indices.as_slice(), self.len()) {
            return None;
        }
        Some(self.get_many_unchecked_mut(indices))
    }

    fn get_many_mut_res_simple<const N: usize>(&mut self, indices: [usize; N]) -> (r: Result<[&mut T; N], ErrorSimple<N>>) {
        if !get_many_check_valid(indices.as_slice(), self.len()) {
            return Err(ErrorSimple);
        }
        Ok(self.get_many_unchecked_mut(indices))
    }

    fn get_many_mut_res_direct<const N: usize>(&mut self, indices: [usize; N]) -> (r: Result<[&mut T; N], ErrorKind>) {
        match get_many_check_valid_kinds(&indices, self.len()) {
            Ok(()) => Ok(self.get_many_unchecked_mut(indices)),
            Err(e) => Err(e),
        }
    }

    fn get_many_mut_res_indirect<const N: usize>(&mut self, indices: [usize; N]) -> (r: Result<[&mut T; N], Error<N>>) {
        if !get_many_check_valid(indices.as_slice(), self.len()) {
            return Err(Error { indices, slice_len: self.len() });
        }
        Ok(self.get_many_unchecked_mut(indices))
    }

    fn get_many_mut_res_indirect_niche<const N: usize>(&mut self, indices: [usize; N]) -> (r: Result<[&mut T; N], ErrorNiche<N>>) {
        if !get_many_check_valid(indices.as_slice(), self.len()) {
            return Err(ErrorNiche { indices, slice_len: self.len() });
        }
        Ok(self.get_many_unchecked_mut(indices))
    }
}

/// The error that says only that the indices were refused.
#[derive(Debug)]
pub struct ErrorSimple<const N: usize>;

/// The error that holds the refused indices and the length of the slice.
pub struct Error<const N: usize> {
    indices: [usize; N],
    slice_len: usize,
}

impl<const N: usize> Error<N> {
    /// The refused indices.
    pub closed spec fn spec_indices(&self) -> Seq<usize> {
        self.indices@
    }

    /// The length of the slice they were refused for.
    pub closed spec fn spec_slice_len(&self) -> usize {
        self.slice_len
    }

    /// The refused indices.
    pub fn indices(&self) -> (r: [usize; N])
        ensures
            r@ == self.spec_indices(),
    {
        self.indices
    }

    /// The length of the slice they were refused for.
    pub fn slice_len(&self) -> (r: usize)
        ensures
            r == self.spec_slice_len(),
    {
        self.slice_len
    }
}

/// The error that holds the refused indices and the length of the slice, meant for a layout in
/// which the length leaves room for the `Ok` case.
pub struct ErrorNiche<const N: usize> {
    indices: [usize; N],
    slice_len: usize,
}

impl<const N: usize> ErrorNiche<N> {
    /// The refused indices.
    pub closed spec fn spec_indices(&self) -> Seq<usize> {
        self.indices@
    }

    /// The length of the slice they were refused for.
    pub closed spec fn spec_slice_len(&self) -> usize {
        self.slice_len
    }

    /// The refused indices.
    pub fn indices(&self) -> (r: [usize; N])
        ensures
            r@ == self.spec_indices(),
    {
        self.indices
    }

    /// The length of the slice they were refused for.
    pub fn slice_len(&self) -> (r: usize)
        ensures
            r == self.spec_slice_len(),
    {
        self.slice_len
    }
}

/// The kind of violation that made the unsorted check refuse an index set.
#[derive(Debug, Clone, Copy, PartialEq, Eq, Structural)]
pub enum ErrorKind {
    /// Some index does not fit the slice.
    OutOfBounds,
    /// Every index fits, but one occurs twice.
    NotUnique,
}

/// The kind reported for an invalid index set: bounds are checked before uniqueness.
pub open spec fn error_kind(idx: Seq<usize>, len: int) -> ErrorKind {
    if !in_bounds(idx, len) {
        ErrorKind::OutOfBounds
    } else {
        ErrorKind::NotUnique
    }
}

/// The unsorted check, naming the kind of violation when it fails.
pub fn get_many_check_valid_kinds<const N: usize>(indices: &[usize; N], len: usize) -> (r: Result<(), ErrorKind>)
    ensures
        r is Ok <==> unsorted_valid(indices@, len as int),
        r is Err ==> r->Err_0 == error_kind(indices@, len as int),
{
    if find_out_of_bounds(indices.as_slice(), len).is_some() {
        return Err(ErrorKind::OutOfBounds);
    }
    if !get_many_check_valid(indices.as_slice(), len) {
        return Err(ErrorKind::NotUnique);
    }
    Ok(())
}

} // verus!
