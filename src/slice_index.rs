//! A variant of the API that also takes ranges.
//!
//! A set of single indices must be strictly ascending, a set of ranges must be sorted and must not
//! overlap, so that `O(N)` comparisons decide whether it is valid.
use vstd::prelude::*;

pub mod ranges;
pub mod single_usize;

verus! {

/// A kind of index, `N` of which select `N` disjoint parts of a slice of `T`.
pub trait SliceIndices<T, const N: usize>: Sized {
    /// What one index selects: an element, or a sub-slice.
    type Output: ?Sized;

    /// Whether the indices `this` are valid for a slice of length `len`.
    spec fn spec_valid(this: Seq<Self>, len: int) -> bool;

    /// `out` is the part of `s` that this index selects.
    spec fn spec_part(&self, s: Seq<T>, out: &Self::Output) -> bool;

    /// A slice that held `before` holds `after` once the parts selected by `this` were left
    /// holding `later`, and nothing else changed.
    spec fn spec_written(this: Seq<Self>, before: Seq<T>, after: Seq<T>, later: Seq<&Self::Output>) -> bool;

    /// The parts that valid indices select, without a check.
    fn get_many_unchecked(this: [Self; N], slice: &[T]) -> (r: [&Self::Output; N])
        requires
            Self::spec_valid(this@, slice@.len() as int),
        ensures
            forall|k: int| 0 <= k < N ==> this@[k].spec_part(slice@, #[trigger] r@[k]),
    ;

    /// The parts that valid indices select, mutably, without a check.
    fn get_many_unchecked_mut(this: [Self; N], slice: &mut [T]) -> (r: [&mut Self::Output; N])
        requires
            Self::spec_valid(this@, old(slice)@.len() as int),
        ensures
            forall|k: int| 0 <= k < N ==> this@[k].spec_part(old(slice)@, &*#[trigger] r@[k]),
            Self::spec_written(this@, old(slice)@, final(slice)@, Seq::new(N as nat, |k: int| &*final(r@[k]))),
    ;

    /// The parts that the indices select, or `None` unless they are valid.
    fn get_many(this: [Self; N], slice: &[T]) -> (r: Option<[&Self::Output; N]>)
        ensures
            r is Some <==> Self::spec_valid(this@, slice@.len() as int),
            r is Some ==> forall|k: int| 0 <= k < N ==> this@[k].spec_part(slice@, #[trigger] r->Some_0@[k]),
    ;

    /// The parts that the indices select, mutably, or `None`, with the slice untouched, unless
    /// they are valid.
    fn get_many_mut(this: [Self; N], slice: &mut [T]) -> (r: Option<[&mut Self::Output; N]>)
        ensures
            r is Some <==> Self::spec_valid(this@, old(slice)@.len() as int),
            r is Some ==> forall|k: int| 0 <= k < N ==> this@[k].spec_part(old(slice)@, &*#[trigger] r->Some_0@[k]),
            r is Some ==> Self::spec_written(this@, old(slice)@, final(slice)@, Seq::new(N as nat, |k: int| &*final(r->Some_0@[k]))),
            r is None ==> final(slice)@ == old(slice)@,
    ;

    /// The parts that the indices select; they must be valid.
    fn index_many(this: [Self; N], slice: &[T]) -> (r: [&Self::Output; N])
        requires
            Self::spec_valid(this@, slice@.len() as int),
        ensures
            forall|k: int| 0 <= k < N ==> this@[k].spec_part(slice@, #[trigger] r@[k]),
    ;

    /// The parts that the indices select, mutably; they must be valid.
    fn index_many_mut(this: [Self; N], slice: &mut [T]) -> (r: [&mut Self::Output; N])
        requires
            Self::spec_valid(this@, old(slice)@.len() as int),
        ensures
            forall|k: int| 0 <= k < N ==> this@[k].spec_part(old(slice)@, &*#[trigger] r@[k]),
            Self::spec_written(this@, old(slice)@, final(slice)@, Seq::new(N as nat, |k: int| &*final(r@[k]))),
    ;
}

/// The parts of `slice` that valid `indices` select, without a check.
pub fn get_many_unchecked<'a, T, I: SliceIndices<T, N>, const N: usize>(slice: &'a [T], indices: [I; N]) -> (r: [&'a I::Output; N])
    requires
        I::spec_valid(indices@, slice@.len() as int),
    ensures
        forall|k: int| 0 <= k < N ==> indices@[k].spec_part(slice@, #[trigger] r@[k]),
{
    I::get_many_unchecked(indices, slice)
}

/// The parts of `slice` that valid `indices` select, mutably, without a check.
pub fn get_many_unchecked_mut<'a, T, I: SliceIndices<T, N>, const N: usize>(slice: &'a mut [T], indices: [I; N]) -> (r: [&'a mut I::Output; N])
    requires
        I::spec_valid(indices@, old(slice)@.len() as int),
    ensures
        forall|k: int| 0 <= k < N ==> indices@[k].spec_part(old(slice)@, &*#[trigger] r@[k]),
        I::spec_written(indices@, old(slice)@, final(slice)@, Seq::new(N as nat, |k: int| &*final(r@[k]))),
{
    I::get_many_unchecked_mut(indices, slice)
}

/// The parts of `slice` that `indices` select, or `None` unless they are valid.
pub fn get_many<'a, T, I: SliceIndices<T, N>, const N: usize>(slice: &'a [T], indices: [I; N]) -> (r: Option<[&'a I::Output; N]>)
    ensures
        r is Some <==> I::spec_valid(indices@, slice@.len() as int),
        r is Some ==> forall|k: int| 0 <= k < N ==> indices@[k].spec_part(slice@, #[trigger] r->Some_0@[k]),
{
    I::get_many(indices, slice)
}

/// The parts of `slice` that `indices` select, mutably, or `None`, with the slice untouched,
/// unless they are valid.
pub fn get_many_mut<'a, T, I: SliceIndices<T, N>, const N: usize>(slice: &'a mut [T], indices: [I; N]) -> (r: Option<[&'a mut I::Output; N]>)
    ensures
        r is Some <==> I::spec_valid(indices@, old(slice)@.len() as int),
        r is Some ==> forall|k: int| 0 <= k < N ==> indices@[k].spec_part(old(slice)@, &*#[trigger] r->Some_0@[k]),
        r is Some ==> I::spec_written(indices@, old(slice)@, final(slice)@, Seq::new(N as nat, |k: int| &*final(r->Some_0@[k]))),
        r is None ==> final(slice)@ == old(slice)@,
{
    I::get_many_mut(indices, slice)
}

/// The parts of `slice` that `indices` select; they must be valid.
pub fn index_many<'a, T, I: SliceIndices<T, N>, const N: usize>(slice: &'a [T], indices: [I; N]) -> (r: [&'a I::Output; N])
    requires
        I::spec_valid(indices@, slice@.len() as int),
    ensures
        forall|k: int| 0 <= k < N ==> indices@[k].spec_part(slice@, #[trigger] r@[k]),
{
    I::index_many(indices, slice)
}

/// The parts of `slice` that `indices` select, mutably; they must be valid.
pub fn index_many_mut<'a, T, I: SliceIndices<T, N>, const N: usize>(slice: &'a mut [T], indices: [I; N]) -> (r: [&'a mut I::Output; N])
    requires
        I::spec_valid(indices@, old(slice)@.len() as int),
    ensures
        forall|k: int| 0 <= k < N ==> indices@[k].spec_part(old(slice)@, &*#[trigger] r@[k]),
        I::spec_written(indices@, old(slice)@, final(slice)@, Seq::new(N as nat, |k: int| &*final(r@[k]))),
{
    I::index_many_mut(indices, slice)
}

} // verus!
