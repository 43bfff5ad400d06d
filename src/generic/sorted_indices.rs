//! A plain array of indices is read as a sorted index set.
use crate::generic::Indices;
use crate::model::{lemma_ascending_distinct, sorted_valid};
use crate::simple_result::GetManyErrorKind;
use crate::validate::{check_indices_valid, sorted_bound_check_failed, sorted_failure};
use vstd::prelude::*;

verus! {

impl<const N: usize> Indices<N> for [usize; N] {
    open spec fn spec_raw(&self) -> Seq<usize> {
        self@
    }

    open spec fn spec_valid(&self, len: int) -> bool {
        sorted_valid(self@, len)
    }

    open spec fn spec_failure(&self, len: int, kind: GetManyErrorKind) -> bool {
        sorted_failure(self@, len, kind)
    }

    proof fn lemma_valid_disjoint(&self, len: int) {
        lemma_ascending_distinct(self@);
    }

    fn to_raw_indices(&self) -> (r: [usize; N]) {
        *self
    }

    fn is_valid(&self, len: usize) -> (r: bool) {
        check_indices_valid(self.as_slice(), len)
    }

    fn describe_failure(&self, len: usize) -> (r: GetManyErrorKind) {
        sorted_bound_check_failed(self.as_slice(), len)
    }
}

} // verus!
