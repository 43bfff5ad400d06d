//! Indices in any order, as long as they are unique.
use crate::generic::Indices;
use crate::model::unsorted_valid;
use crate::simple_result::GetManyErrorKind;
use crate::validate::{bound_check_failed, get_many_check_valid, unsorted_failure};
use vstd::prelude::*;

verus! {

/// Indices in any order, as long as they are unique.
///
/// Checking them takes `O(N^2)` comparisons: each index against the length and against every
/// earlier index.
#[derive(Copy, Clone)]
pub struct UnsortedIndices<const N: usize>(pub [usize; N]);

impl<const N: usize> Indices<N> for UnsortedIndices<N> {
    open spec fn spec_raw(&self) -> Seq<usize> {
        self.0@
    }

    open spec fn spec_valid(&self, len: int) -> bool {
        unsorted_valid(self.0@, len)
    }

    open spec fn spec_failure(&self, len: int, kind: GetManyErrorKind) -> bool {
        unsorted_failure(self.0@, len, kind)
    }

    proof fn lemma_valid_disjoint(&self, len: int) {
    }

    fn to_raw_indices(&self) -> (r: [usize; N]) {
        self.0
    }

    fn is_valid(&self, len: usize) -> (r: bool) {
        get_many_check_valid(self.0.as_slice(), len)
    }

    fn describe_failure(&self, len: usize) -> (r: GetManyErrorKind) {
        bound_check_failed(self.0.as_slice(), len)
    }
}

} // verus!
