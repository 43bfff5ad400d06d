//! Indices in any order, with the comparisons for `N <= 3` written out by hand.
use crate::generic::Indices;
use crate::model::unsorted_valid;
use crate::simple_result::GetManyErrorKind;
use crate::validate::{bound_check_failed, get_many_check_valid, unsorted_failure};
use vstd::prelude::*;

verus! {

/// Indices in any order, as long as they are unique.
///
/// Checking them takes `O(N^2)` comparisons; for `N <= 3` they are spelled out one by one, which
/// lets an optimizer emit them without a loop. The outcome is that of [`super::UnsortedIndices`].
#[derive(Copy, Clone)]
pub struct UnsortedSpecializedIndices<const N: usize>(pub [usize; N]);

impl<const N: usize> Indices<N> for UnsortedSpecializedIndices<N> {
    open spec fn spec_raw(&self) -> Seq<usize> {
        self.0@
    }

    open spec fn spec_valid(&self, len: int) -> bool {
        unsorted_valid(self.0@, len)
    }

    open spec fn spec_failure(&self, len: int, kind: GetManyErrorKind) -> bool {
        unsorted_failure(self.0@, len, kind)
    }

    proof fn lemma_valid_disjoint(&self, len: int) {
    }

    fn to_raw_indices(&self) -> (r: [usize; N]) {
        self.0
    }

    fn is_valid(&self, len: usize) -> (r: bool) {
        let ghost s = self.0@;
        if N == 0 {
            true
        } else if N == 1 {
            let a = self.0[0];
            a < len
        } else if N == 2 {
            let a = self.0[0];
            let b = self.0[1];
            let valid = a != b && a < len && b < len;
            proof {
                if valid {
                    assert forall|k: int| 0 <= k < 2 implies #[trigger] s[k] < len by {
                        if k == 1 {
                            assert(s[1] == b);
                        }
                    }
                }
            }
            valid
        } else if N == 3 {
            let a = self.0[0];
            let b = self.0[1];
            let c = self.0[2];
            let valid = a < len && b < len && b != a && c < len && c != a && c != b;
            proof {
                if valid {
                    assert forall|k: int| 0 <= k < 3 implies #[trigger] s[k] < len by {
                        if k == 1 {
                            assert(s[1] == b);
                        } else if k == 2 {
                            assert(s[2] == c);
                        }
                    }
                } else {
                    if !(a < len) {
                        assert(s[0] == a);
                    } else if !(b < len) {
                        assert(s[1] == b);
                    } else if !(c < len) {
                        assert(s[2] == c);
                    } else if b == a {
                        assert(s[1] == s[0]);
                    } else if c == a {
                        assert(s[2] == s[0]);
                    } else {
                        assert(s[2] == s[1]);
                    }
                }
            }
            valid
        } else {
            get_many_check_valid(self.0.as_slice(), len)
        }
    }

    fn describe_failure(&self, len: usize) -> (r: GetManyErrorKind) {
        bound_check_failed(self.0.as_slice(), len)
    }
}

} // verus!
