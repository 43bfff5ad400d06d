//! Turns an index set that is known to be valid into a bundle of references.
//!
//! Mutable references are split off the buffer with `split_at_mut`, walking it once from front to
//! back in ascending order of the indices, so that no two of them can overlap. The order of the
//! caller's index set is restored afterwards.
use crate::model::{all_distinct, in_bounds, picks, keeps_others, picks_mut, unsorted_valid};
use vstd::prelude::*;

verus! {

/// Relies on `<[T; N] as TryFrom<Vec<T>>>::try_from`: a vector of exactly `N` items becomes the
/// array of those items in order; any other vector is handed back.
#[verifier::external_body]
fn vec_into_array<T, const N: usize>(v: Vec<T>) -> (r: Result<[T; N], Vec<T>>)
    ensures
        v@.len() == N <==> r is Ok,
        r is Ok ==> r->Ok_0@ == v@,
{
    <[T; N]>::try_from(v)
}

/// An array of `N` items made of a vector that holds exactly `N`.
pub(crate) fn into_array<T, const N: usize>(v: Vec<T>) -> (r: [T; N])
    requires
        v@.len() == N,
    ensures
        r@ == v@,
{
    match vec_into_array(v) {
        Ok(a) => a,
        Err(_) => vstd::pervasive::unreached(),
    }
}

/// Shared references to the elements that `indices` names, in the order of `indices`.
pub fn get_many_internal<'a, T, const N: usize>(slice: &'a [T], indices: &[usize; N]) -> (r: [&'a T; N])
    requires
        in_bounds(indices@, slice@.len() as int),
    ensures
        picks(slice@, indices@, r@),
{
    let mut out: Vec<&'a T> = Vec::new();
    let mut k: usize = 0;
    while k < N
        invariant
            0 <= k <= N,
            indices@.len() == N,
            in_bounds(indices@, slice@.len() as int),
            out@.len() == k,
            forall|j: int| 0 <= j < k ==> *#[trigger] out@[j] == slice@[indices@[j] as int],
        decreases N - k,
    {
        let idx = indices[k];
        out.push(&slice[idx]);
        k = k + 1;
    }
    into_array(out)
}

/// The positions of `indices`, ordered by the index that each holds: an insertion sort that
/// searches from the back, so that indices that already ascend cost one comparison each.
fn sort_positions(indices: &[usize]) -> (order: Vec<usize>)
    requires
        all_distinct(indices@),
    ensures
        order@.len() == indices@.len(),
        forall|m: int| 0 <= m < order@.len() ==> #[trigger] order@[m] < indices@.len(),
        forall|a: int, b: int|
            0 <= a < b < order@.len() ==> indices@[order@[a] as int] < indices@[order@[b] as int],
        forall|p: int| 0 <= p < indices@.len() ==> #[trigger] order@.contains(p as usize),
{
    let mut order: Vec<usize> = Vec::new();
    let mut i: usize = 0;
    while i < indices.len()
        invariant
            0 <= i <= indices@.len(),
            all_distinct(indices@),
            order@.len() == i,
            forall|m: int| 0 <= m < order@.len() ==> #[trigger] order@[m] < i,
            forall|a: int, b: int|
                0 <= a < b < order@.len() ==> indices@[order@[a] as int] < indices@[order@[b] as int],
            forall|p: int| 0 <= p < i ==> #[trigger] order@.contains(p as usize),
        decreases indices@.len() - i,
    {
        let key = indices[i];
        let mut pos: usize = order.len();
        while pos > 0 && indices[order[pos - 1]] > key
            invariant
                0 <= pos <= order@.len(),
                order@.len() == i,
                i < indices@.len(),
                key == indices@[i as int],
                forall|m: int| 0 <= m < order@.len() ==> #[trigger] order@[m] < i,
                forall|m: int| pos <= m < order@.len() ==> key < indices@[#[trigger] order@[m] as int],
            decreases pos,
        {
            pos = pos - 1;
        }
        let ghost prev = order@;
        proof {
            assert forall|m: int| 0 <= m < pos implies indices@[#[trigger] prev[m] as int] < key by {
                assert(prev[m] != i);
                assert(indices@[prev[m] as int] != indices@[i as int]);
                if m < pos - 1 {
                    assert(indices@[prev[m] as int] < indices@[prev[pos - 1] as int]);
                }
            }
        }
        order.insert(pos, i);
        proof {
            assert forall|p: int| 0 <= p < i + 1 implies #[trigger] order@.contains(p as usize) by {
                if p == i {
                    assert(order@[pos as int] == p as usize);
                } else {
                    assert(prev.contains(p as usize));
                    let w = choose|w: int| 0 <= w < prev.len() && prev[w] == p as usize;
                    if w < pos {
                        assert(order@[w] == p as usize);
                    } else {
                        assert(order@[w + 1] == p as usize);
                    }
                }
            }
            assert forall|a: int, b: int| 0 <= a < b < order@.len() implies
                indices@[order@[a] as int] < indices@[order@[b] as int] by {
                if b < pos {
                    assert(order@[a] == prev[a] && order@[b] == prev[b]);
                } else if b == pos {
                    assert(order@[a] == prev[a]);
                } else if a < pos {
                    assert(order@[a] == prev[a] && order@[b] == prev[b - 1]);
                    assert(indices@[prev[a] as int] < key);
                    assert(key < indices@[prev[b - 1] as int]);
                } else if a == pos {
                    assert(order@[b] == prev[b - 1]);
                } else {
                    assert(order@[a] == prev[a - 1] && order@[b] == prev[b - 1]);
                }
            }
        }
        i = i + 1;
    }
    order
}

/// Walks `slice` once, in the ascending order of the indices that `order` gives, splitting off one
/// element for each index and leaving it in the slot of the position that holds the index.
fn fill_slots<'a, T>(slice: &'a mut [T], indices: &[usize], order: &[usize]) -> (slots: Vec<Option<&'a mut T>>)
    requires
        order@.len() == indices@.len(),
        in_bounds(indices@, old(slice)@.len() as int),
        forall|m: int| 0 <= m < order@.len() ==> #[trigger] order@[m] < indices@.len(),
        forall|a: int, b: int|
            0 <= a < b < order@.len() ==> indices@[order@[a] as int] < indices@[order@[b] as int],
    ensures
        slots@.len() == indices@.len(),
        final(slice)@.len() == old(slice)@.len(),
        forall|m: int| 0 <= m < order@.len() ==> (#[trigger] slots@[order@[m] as int]) is Some,
        forall|m: int|
            0 <= m < order@.len() ==> *(#[trigger] slots@[order@[m] as int])->Some_0
                == old(slice)@[indices@[order@[m] as int] as int],
        forall|m: int|
            0 <= m < order@.len() ==> final(slice)@[indices@[order@[m] as int] as int]
                == *final((#[trigger] slots@[order@[m] as int])->Some_0),
        forall|q: int|
            0 <= q < old(slice)@.len() && (forall|m: int| 0 <= m < order@.len() ==> indices@[#[trigger] order@[m] as int] != q)
                ==> final(slice)@[q] == old(slice)@[q],
{
    let ghost fin = final(slice)@;
    let ghost before = old(slice)@;
    let ghost sidx = Seq::new(order@.len(), |m: int| indices@[order@[m] as int]);
    let len = slice.len();
    let n = order.len();
    let mut slots: Vec<Option<&'a mut T>> = Vec::new();
    let mut s: usize = 0;
    while s < n
        invariant
            0 <= s <= n,
            slots@.len() == s,
        decreases n - s,
    {
        slots.push(None);
        s = s + 1;
    }
    let mut rest: &'a mut [T] = slice;
    let mut offset: usize = 0;
    let mut k: usize = 0;
    while k < n
        invariant
            0 <= k <= n,
            n == order@.len(),
            order@.len() == indices@.len(),
            len == before.len(),
            sidx.len() == n,
            forall|m: int| 0 <= m < n ==> #[trigger] sidx[m] == indices@[order@[m] as int],
            forall|m: int| 0 <= m < n ==> #[trigger] sidx[m] < len,
            forall|m: int| 0 <= m < n ==> #[trigger] order@[m] < n,
            forall|a: int, b: int| 0 <= a < b < n ==> sidx[a] < sidx[b],
            k > 0 ==> offset == sidx[k - 1] + 1,
            k == 0 ==> offset == 0,
            offset <= len,
            rest@ == before.subrange(offset as int, len as int),
            slots@.len() == n,
            forall|m: int| 0 <= m < k ==> (#[trigger] slots@[order@[m] as int]) is Some,
            forall|m: int| 0 <= m < k ==> *(#[trigger] slots@[order@[m] as int])->Some_0 == before[sidx[m] as int],
            forall|m: int| 0 <= m < k ==> fin[sidx[m] as int] == *final((#[trigger] slots@[order@[m] as int])->Some_0),
            fin.len() == offset + final(rest)@.len(),
            forall|p: int| 0 <= p < final(rest)@.len() ==> fin[offset + p] == final(rest)@[p],
            forall|q: int| 0 <= q < offset && (forall|m: int| 0 <= m < k ==> #[trigger] sidx[m] != q) ==> fin[q] == before[q],
        decreases n - k,
    {
        let idx = indices[order[k]];
        proof {
            assert(sidx[k as int] == idx);
            if k > 0 {
                assert(sidx[k - 1] < sidx[k as int]);
            }
        }
        let ghost fr = final(rest)@;
        let (skipped, tail) = rest.split_at_mut(idx - offset);
        let ghost ft = final(tail)@;
        let ghost fs = final(skipped)@;
        let ghost cs = skipped@;
        let (head, tail2) = tail.split_at_mut(1);
        let ghost fh = final(head)@;
        let ghost ft2 = final(tail2)@;
        let elem = head.first_mut().unwrap();
        let ghost fe = *final(elem);
        let slot = order[k];
        slots[slot] = Some(elem);
        proof {
            assert(fh[0] == fe);
            assert(ft[0] == fe);
            assert(fr[idx - offset] == fe);
            assert(fin[idx as int] == fe);
            assert(fs == cs);
            assert forall|m: int| 0 <= m < k implies order@[m] != order@[k as int] by {
                assert(sidx[m] < sidx[k as int]);
            }
            assert forall|p: int| 0 <= p < ft2.len() implies fin[idx + 1 + p] == ft2[p] by {
                assert(ft[1 + p] == ft2[p]);
                assert(fr[idx - offset + 1 + p] == ft[1 + p]);
            }
            assert forall|q: int| 0 <= q < idx + 1 && (forall|m: int| 0 <= m < k + 1 ==> #[trigger] sidx[m] != q)
                implies fin[q] == before[q] by {
                if q >= offset {
                    assert(sidx[k as int] != q);
                    assert(fin[q] == fr[q - offset]);
                    assert(fr[q - offset] == fs[q - offset]);
                }
            }
        }
        rest = tail2;
        offset = idx + 1;
        k = k + 1;
    }
    let ghost fr_end = final(rest)@;
    proof {
        assert(fr_end == rest@);
        assert forall|q: int| 0 <= q < len && (forall|m: int| 0 <= m < n ==> indices@[#[trigger] order@[m] as int] != q)
            implies fin[q] == before[q] by {
            if q >= offset {
                assert(fin[q] == fr_end[q - offset]);
            } else {
                assert forall|m: int| 0 <= m < n implies #[trigger] sidx[m] != q by {
                    assert(indices@[order@[m] as int] != q);
                }
            }
        }
    }
    slots
}

/// Mutable references to the elements that `indices` names, in the order of `indices`.
pub fn get_many_internal_mut<'a, T, const N: usize>(slice: &'a mut [T], indices: &[usize; N]) -> (r: [&'a mut T; N])
    requires
        unsorted_valid(indices@, old(slice)@.len() as int),
    ensures
        picks_mut(old(slice)@, indices@, r@),
        keeps_others(old(slice)@, final(slice)@, indices@),
        forall|k: int| 0 <= k < N ==> final(slice)@[indices@[k] as int] == *final(#[trigger] r@[k]),
{
    let ghost before = old(slice)@;
    let ghost after = final(slice)@;
    let order = sort_positions(indices.as_slice());
    let mut slots = fill_slots(slice, indices.as_slice(), order.as_slice());
    let ghost filled = slots@;
    proof {
        assert forall|j: int| 0 <= j < N implies (#[trigger] filled[j]) is Some by {
            assert(order@.contains(j as usize));
            let m = choose|m: int| 0 <= m < order@.len() && order@[m] == j as usize;
            assert(filled[order@[m] as int] is Some);
        }
    }
    let mut out: Vec<&'a mut T> = Vec::new();
    let mut k: usize = 0;
    while k < N
        invariant
            0 <= k <= N,
            indices@.len() == N,
            slots@.len() == N,
            filled.len() == N,
            forall|j: int| k <= j < N ==> #[trigger] slots@[j] == filled[j],
            forall|j: int| 0 <= j < N ==> (#[trigger] filled[j]) is Some,
            out@.len() == k,
            forall|j: int| 0 <= j < k ==> #[trigger] out@[j] == filled[j]->Some_0,
        decreases N - k,
    {
        let taken = slots[k].take();
        out.push(taken.unwrap());
        k = k + 1;
    }
    let r = into_array(out);
    proof {
        assert forall|k: int| 0 <= k < N implies #[trigger] r@[k] == filled[k]->Some_0
            && *filled[k]->Some_0 == before[indices@[k] as int]
            && after[indices@[k] as int] == *final(filled[k]->Some_0) by {
            assert(order@.contains(k as usize));
            let m = choose|m: int| 0 <= m < order@.len() && order@[m] == k as usize;
            assert(filled[order@[m] as int] is Some);
        }
        assert forall|q: int| 0 <= q < before.len() && !indices@.contains(q as usize) implies after[q] == before[q] by {
            assert forall|m: int| 0 <= m < order@.len() implies indices@[#[trigger] order@[m] as int] != q by {
                if indices@[order@[m] as int] == q {
                    assert(indices@.contains(q as usize));
                }
            }
        }
    }
    r
}

} // verus!
