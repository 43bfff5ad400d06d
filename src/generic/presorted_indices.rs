//! Indices that were found strictly ascending when they were wrapped.
use crate::generic::Indices;
use crate::model::{lemma_ascending_distinct, sorted_valid, strictly_ascending};
use crate::simple_result::GetManyErrorKind;
use crate::validate::{is_strictly_ascending, last_in_bounds, sorted_bound_check_failed, sorted_failure};
use vstd::prelude::*;

verus! {

/// Indices that are known to be strictly ascending, hence unique.
///
/// Only the last index then needs to be compared against the length of a slice.
#[derive(Copy, Clone)]
pub struct PresortedIndices<const N: usize> {
    indices: [usize; N],
}

/// The indices given to [`PresortedIndices::new`] were not strictly ascending.
#[derive(Debug)]
pub struct PresortedIndicesError {
    _private: (),
}

impl<const N: usize> PresortedIndices<N> {
    /// The indices are strictly ascending.
    #[verifier::type_invariant]
    spec fn ascending(&self) -> bool {
        strictly_ascending(self.indices@)
    }

    /// Wraps `indices`, or fails unless they are strictly ascending.
    pub fn new(indices: [usize; N]) -> (r: Result<Self, PresortedIndicesError>)
        ensures
            r is Ok <==> strictly_ascending(indices@),
            r is Ok ==> r->Ok_0.spec_raw() == indices@,
    {
        if is_strictly_ascending(indices.as_slice()) {
            Ok(Self { indices })
        } else {
            Err(PresortedIndicesError { _private: () })
        }
    }

    /// The wrapped indices.
    pub fn as_array(&self) -> (r: &[usize; N])
        ensures
            r@ == self.spec_raw(),
    {
        &self.indices
    }
}

impl<const N: usize> core::ops::Deref for PresortedIndices<N> {
    type Target = [usize; N];

    fn deref(&self) -> &[usize; N] {
        &self.indices
    }
}

impl<const N: usize> Indices<N> for PresortedIndices<N> {
    closed spec fn spec_raw(&self) -> Seq<usize> {
        self.indices@
    }

    open spec fn spec_valid(&self, len: int) -> bool {
        sorted_valid(self.spec_raw(), len)
    }

    open spec fn spec_failure(&self, len: int, kind: GetManyErrorKind) -> bool {
        sorted_failure(self.spec_raw(), len, kind)
    }

    proof fn lemma_valid_disjoint(&self, len: int) {
        lemma_ascending_distinct(self.spec_raw());
    }

    fn to_raw_indices(&self) -> (r: [usize; N]) {
        self.indices
    }

    fn is_valid(&self, len: usize) -> (r: bool) {
        proof {
            use_type_invariant(self);
        }
        last_in_bounds(self.indices.as_slice(), len)
    }

    fn describe_failure(&self, len: usize) -> (r: GetManyErrorKind) {
        sorted_bound_check_failed(self.indices.as_slice(), len)
    }
}

} // verus!
