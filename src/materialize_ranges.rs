//! Turns half-open ranges that are known to be valid into a bundle of sub-slices.
use vstd::prelude::*;

verus! {

/// Every range is well formed, each ends no later than the next one starts, and the last one
/// ends inside a buffer of length `len`.
pub open spec fn ranges_valid(starts: Seq<usize>, ends: Seq<usize>, len: int) -> bool {
    &&& starts.len() == ends.len()
    &&& forall|k: int| 0 <= k < starts.len() ==> #[trigger] starts[k] <= ends[k]
    &&& forall|k: int| 0 <= k < starts.len() - 1 ==> ends[k] <= #[trigger] starts[k + 1]
    &&& starts.len() > 0 ==> ends[starts.len() - 1] <= len
}

/// `r` holds, position by position, the parts of `s` that the ranges name.
pub open spec fn picks_ranges<T>(s: Seq<T>, starts: Seq<usize>, ends: Seq<usize>, r: Seq<Seq<T>>) -> bool {
    &&& r.len() == starts.len()
    &&& forall|k: int| 0 <= k < starts.len() ==> #[trigger] r[k] == s.subrange(starts[k] as int, ends[k] as int)
}

/// The buffer `before` up to the end of range `k - 1`, with the part of each of the first `k`
/// ranges replaced by the matching item of `pieces`.
pub open spec fn assembled<T>(before: Seq<T>, starts: Seq<usize>, ends: Seq<usize>, pieces: Seq<Seq<T>>, k: int) -> Seq<T>
    decreases k,
{
    if k <= 0 {
        Seq::empty()
    } else {
        let from = if k == 1 { 0 } else { ends[k - 2] as int };
        assembled(before, starts, ends, pieces, k - 1) + before.subrange(from, starts[k - 1] as int) + pieces[k - 1]
    }
}

/// The buffer `before` with the part of each range replaced by the matching item of `pieces`.
pub open spec fn reassembled<T>(before: Seq<T>, starts: Seq<usize>, ends: Seq<usize>, pieces: Seq<Seq<T>>) -> Seq<T> {
    let n = starts.len() as int;
    let from = if n == 0 { 0 } else { ends[n - 1] as int };
    assembled(before, starts, ends, pieces, n) + before.subrange(from, before.len() as int)
}

/// Shared sub-slices for the ranges `starts[k]..ends[k]`, in order.
pub fn get_many_ranges_internal<'a, T>(slice: &'a [T], starts: &[usize], ends: &[usize]) -> (r: Vec<&'a [T]>)
    requires
        ranges_valid(starts@, ends@, slice@.len() as int),
    ensures
        picks_ranges(slice@, starts@, ends@, r@.map_values(|p: &[T]| p@)),
{
    let n = starts.len();
    let mut out: Vec<&'a [T]> = Vec::new();
    let mut k: usize = 0;
    while k < n
        invariant
            0 <= k <= n,
            n == starts@.len(),
            ranges_valid(starts@, ends@, slice@.len() as int),
            out@.len() == k,
            forall|j: int| 0 <= j < k ==> #[trigger] out@[j]@ == slice@.subrange(starts@[j] as int, ends@[j] as int),
        decreases n - k,
    {
        proof {
            lemma_range_in_bounds(starts@, ends@, slice@.len() as int, k as int);
        }
        out.push(&slice[starts[k]..ends[k]]);
        k = k + 1;
    }
    proof {
        let m = out@.map_values(|p: &[T]| p@);
        assert forall|j: int| 0 <= j < n implies #[trigger] m[j] == slice@.subrange(starts@[j] as int, ends@[j] as int) by {
            assert(m[j] == out@[j]@);
        }
    }
    out
}

/// Each valid range ends inside the buffer, and every later range starts at or after its end.
proof fn lemma_range_in_bounds(starts: Seq<usize>, ends: Seq<usize>, len: int, k: int)
    requires
        ranges_valid(starts, ends, len),
        0 <= k < starts.len(),
    ensures
        ends[k] <= len,
        forall|j: int| k < j < starts.len() ==> ends[k] <= #[trigger] starts[j],
    decreases starts.len() - k,
{
    if k < starts.len() - 1 {
        lemma_range_in_bounds(starts, ends, len, k + 1);
        assert(ends[k] <= starts[k + 1]);
        assert(starts[k + 1] <= ends[k + 1]);
        assert forall|j: int| k < j < starts.len() implies ends[k] <= #[trigger] starts[j] by {
            if j > k + 1 {
                assert(ends[k + 1] <= starts[j]);
            }
        }
    }
}

/// Mutable sub-slices for the ranges `starts[k]..ends[k]`, in order, split off `slice` from
/// front to back.
pub fn get_many_ranges_internal_mut<'a, T>(slice: &'a mut [T], starts: &[usize], ends: &[usize]) -> (r: Vec<&'a mut [T]>)
    requires
        ranges_valid(starts@, ends@, old(slice)@.len() as int),
    ensures
        r@.len() == starts@.len(),
        forall|k: int| 0 <= k < starts@.len() ==> #[trigger] r@[k]@ == old(slice)@.subrange(starts@[k] as int, ends@[k] as int),
        final(slice)@ == reassembled(old(slice)@, starts@, ends@, Seq::new(r@.len(), |k: int| final(r@[k])@)),
{
    let ghost fin = final(slice)@;
    let ghost before = old(slice)@;
    let len = slice.len();
    let n = starts.len();
    let mut out: Vec<&'a mut [T]> = Vec::new();
    let mut rest: &'a mut [T] = slice;
    let mut offset: usize = 0;
    let mut k: usize = 0;
    while k < n
        invariant
            0 <= k <= n,
            n == starts@.len(),
            len == before.len(),
            ranges_valid(starts@, ends@, len as int),
            k > 0 ==> offset == ends@[k - 1],
            k == 0 ==> offset == 0,
            k < n ==> offset <= starts@[k as int],
            offset <= len,
            rest@ == before.subrange(offset as int, len as int),
            out@.len() == k,
            forall|j: int| 0 <= j < k ==> #[trigger] out@[j]@ == before.subrange(starts@[j] as int, ends@[j] as int),
            fin == assembled(before, starts@, ends@, Seq::new(out@.len(), |j: int| final(out@[j])@), k as int) + final(rest)@,
        decreases n - k,
    {
        proof {
            lemma_range_in_bounds(starts@, ends@, len as int, k as int);
        }
        let start = starts[k];
        let end = ends[k];
        let ghost pieces = Seq::new(out@.len(), |j: int| final(out@[j])@);
        let (gap, tail) = rest.split_at_mut(start - offset);
        let ghost fg = final(gap)@;
        let ghost cg = gap@;
        let (piece, tail2) = tail.split_at_mut(end - start);
        let ghost fp = final(piece)@;
        let ghost ft2 = final(tail2)@;
        out.push(piece);
        proof {
            assert(fg == cg);
            let pieces2 = Seq::new(out@.len(), |j: int| final(out@[j])@);
            assert forall|j: int| 0 <= j < k implies pieces[j] == pieces2[j] by {}
            assert(pieces2[k as int] == fp);
            lemma_assembled_prefix(before, starts@, ends@, pieces, pieces2, k as int);
            let a = assembled(before, starts@, ends@, pieces, k as int);
            assert(cg == before.subrange(offset as int, start as int));
            assert(assembled(before, starts@, ends@, pieces2, k + 1) == a + cg + fp);
            lemma_concat_regroup(a, cg, fp, ft2);
            if k + 1 < n {
                assert(ends@[k as int] <= starts@[k + 1]);
            }
        }
        rest = tail2;
        offset = end;
        k = k + 1;
    }
    let ghost fr_end = final(rest)@;
    proof {
        assert(fr_end == rest@);
    }
    out
}

/// `a + (g + (p + t))` regrouped from the left.
proof fn lemma_concat_regroup<T>(a: Seq<T>, g: Seq<T>, p: Seq<T>, t: Seq<T>)
    ensures
        a + (g + (p + t)) == a + g + p + t,
{
    assert(a + (g + (p + t)) =~= a + g + p + t);
}

/// `assembled` up to `k` reads only the first `k` pieces.
proof fn lemma_assembled_prefix<T>(before: Seq<T>, starts: Seq<usize>, ends: Seq<usize>, p: Seq<Seq<T>>, q: Seq<Seq<T>>, k: int)
    requires
        0 <= k <= p.len(),
        k <= q.len(),
        forall|j: int| 0 <= j < k ==> p[j] == q[j],
    ensures
        assembled(before, starts, ends, p, k) == assembled(before, starts, ends, q, k),
    decreases k,
{
    if k > 0 {
        lemma_assembled_prefix(before, starts, ends, p, q, k - 1);
    }
}

} // verus!
