//! Single indices select elements; they follow the sorted API of [`crate::simple`].
use crate::model::{keeps_others, sorted_valid};
use crate::slice_index::SliceIndices;
use vstd::prelude::*;

verus! {

impl<T, const N: usize> SliceIndices<T, N> for usize {
    type Output = T;

    open spec fn spec_valid(this: Seq<usize>, len: int) -> bool {
        sorted_valid(this, len)
    }

    open spec fn spec_part(&self, s: Seq<T>, out: &T) -> bool {
        *out == s[*self as int]
    }

    open spec fn spec_written(this: Seq<usize>, before: Seq<T>, after: Seq<T>, later: Seq<&T>) -> bool {
        &&& keeps_others(before, after, this)
        &&& forall|k: int| 0 <= k < this.len() ==> after[this[k] as int] == *#[trigger] later[k]
    }

    fn get_many_unchecked(this: [usize; N], slice: &[T]) -> (r: [&T; N]) {
        crate::simple::index_many(slice, this)
    }

    fn get_many_unchecked_mut(this: [usize; N], slice: &mut [T]) -> (r: [&mut T; N]) {
        let ghost fin = final(slice)@;
        let r = crate::simple::index_many_mut(slice, this);
        proof {
            let later = Seq::new(N as nat, |k: int| &*final(r@[k]));
            assert forall|k: int| 0 <= k < N implies fin[this@[k] as int] == *#[trigger] later[k] by {
                assert(fin[this@[k] as int] == *final(r@[k]));
            }
        }
        r
    }

    fn get_many(this: [usize; N], slice: &[T]) -> (r: Option<[&T; N]>) {
        crate::simple::get_many(slice, this)
    }

    fn get_many_mut(this: [usize; N], slice: &mut [T]) -> (r: Option<[&mut T; N]>) {
        let ghost fin = final(slice)@;
        let r = crate::simple::get_many_mut(slice, this);
        proof {
            if r is Some {
                let later = Seq::new(N as nat, |k: int| &*final(r->Some_0@[k]));
                assert forall|k: int| 0 <= k < N implies fin[this@[k] as int] == *#[trigger] later[k] by {
                    assert(fin[this@[k] as int] == *final(r->Some_0@[k]));
                }
            }
        }
        r
    }

    fn index_many(this: [usize; N], slice: &[T]) -> (r: [&T; N]) {
        crate::simple::index_many(slice, this)
    }

    fn index_many_mut(this: [usize; N], slice: &mut [T]) -> (r: [&mut T; N]) {
        let ghost fin = final(slice)@;
        let r = crate::simple::index_many_mut(slice, this);
        proof {
            let later = Seq::new(N as nat, |k: int| &*final(r@[k]));
            assert forall|k: int| 0 <= k < N implies fin[this@[k] as int] == *#[trigger] later[k] by {
                assert(fin[this@[k] as int] == *final(r@[k]));
            }
        }
        r
    }
}

} // verus!
