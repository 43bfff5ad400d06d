use index_many::generic::{self, Indices, PresortedIndices, UnsortedIndices, UnsortedSpecializedIndices};
use index_many::simple;
use index_many::simple_result::{self, GetManyErrorKind};
use index_many::slice_index;
use index_many::std_proposal::{ErrorKind, SliceExt};

#[test]
fn writes_through_unsorted_references_do_not_interfere() {
    let mut v = vec![0, 0, 0, 0, 0, 0];
    let [a, b, c] = generic::index_many_mut(&mut v, UnsortedIndices([4, 0, 2]));
    *a = 40;
    *b = 10;
    *c = 20;
    assert_eq!((*a, *b, *c), (40, 10, 20));
    assert_eq!(v, vec![10, 0, 20, 0, 40, 0]);
    let [x, y, z] = generic::index_many(&v, UnsortedIndices([4, 0, 2]));
    assert_eq!((*x, *y, *z), (40, 10, 20));
}

#[test]
fn writes_through_slice_ext_references_do_not_interfere() {
    let mut v = [1u8, 2, 3, 4];
    let [a, b] = v.get_many_mut_opt([3, 1]).unwrap();
    *a = 30;
    *b = 10;
    assert_eq!(v, [1, 10, 3, 30]);
}

#[test]
fn get_many_returns_the_named_elements() {
    let v = vec![10, 11, 12, 13, 14];
    assert_eq!(simple::get_many(&v, [1, 3]), Some([&11, &13]));
    assert_eq!(generic::get_many(&v, UnsortedIndices([4, 0])), Some([&14, &10]));
    assert_eq!(slice_index::get_many(&v, [0, 2, 4]), Some([&10, &12, &14]));
    assert!(matches!(simple_result::get_many(&v, [2]), Ok([&12])));
}

#[test]
fn out_of_bounds_index_is_rejected_everywhere() {
    let mut v = vec![1, 2, 3, 4, 5];
    assert!(simple::get_many(&v, [5]).is_none());
    assert!(simple::get_many_mut(&mut v, [1, 5]).is_none());
    assert!(generic::get_many(&v, UnsortedIndices([5])).is_none());
    assert!(generic::get_many(&v, [5]).is_none());
    assert!(slice_index::get_many(&v, [5]).is_none());
    let e = simple_result::get_many(&v, [5]).err().unwrap();
    assert_eq!(e.kind(), GetManyErrorKind::OutOfBounds { many_idx: 0, slice_idx: 5, slice_len: 5 });
    assert!(matches!(v.get_many_mut_res_direct([0, 7]), Err(ErrorKind::OutOfBounds)));
    assert_eq!(v, vec![1, 2, 3, 4, 5]);
}

#[test]
fn repeated_index_is_rejected_everywhere() {
    let mut v = vec![1, 2, 3, 4, 5];
    assert!(generic::get_many(&v, UnsortedIndices([1, 3, 3, 4])).is_none());
    assert!(generic::get_many_mut(&mut v, UnsortedSpecializedIndices([1, 3, 3, 4])).is_none());
    assert!(simple::get_many(&v, [1, 3, 3, 4]).is_none());
    assert!(v.get_many_mut_opt([1, 3, 3, 4]).is_none());
    assert!(matches!(v.get_many_mut_res_direct([1, 3, 3, 4]), Err(ErrorKind::NotUnique)));
    assert_eq!(
        UnsortedIndices([1, 3, 3, 4]).describe_failure(5),
        GetManyErrorKind::NotUnique { many_idx_1: 1, many_idx_2: 2, slice_idx: 3 }
    );
    let e = simple_result::get_many(&v, [1, 3, 3, 4]).err().unwrap();
    assert_eq!(e.kind(), GetManyErrorKind::NotUnique { many_idx_1: 1, many_idx_2: 2, slice_idx: 3 });
}

#[test]
fn unsorted_order_is_rejected_by_sorted_policy_only() {
    let v = vec![1, 2, 3, 4, 5];
    assert!(simple::get_many(&v, [3, 1, 4]).is_none());
    assert!(generic::get_many(&v, [3, 1, 4]).is_none());
    let e = simple_result::get_many(&v, [3, 1, 4]).err().unwrap();
    assert_eq!(e.kind(), GetManyErrorKind::NotSorted { many_idx_1: 0, many_idx_2: 1 });
    assert!(PresortedIndices::new([3, 1, 4]).is_err());
    assert_eq!(generic::get_many(&v, UnsortedIndices([3, 1, 4])), Some([&4, &2, &5]));
    assert_eq!(generic::get_many(&v, UnsortedSpecializedIndices([3, 1, 4])), Some([&4, &2, &5]));
}

#[test]
fn empty_index_set_always_succeeds() {
    let mut empty: Vec<u32> = vec![];
    assert_eq!(simple::get_many(&empty, []), Some([]));
    assert!(simple::get_many_mut(&mut empty, []).is_some());
    assert!(simple_result::get_many(&empty, []).is_ok());
    assert!(generic::get_many(&empty, UnsortedIndices([])).is_some());
    assert!(generic::get_many(&empty, UnsortedSpecializedIndices([])).is_some());
    assert!(generic::get_many(&empty, PresortedIndices::new([]).unwrap()).is_some());
    assert!(slice_index::get_many::<_, usize, 0>(&empty, []).is_some());
    assert!(slice_index::get_many::<_, std::ops::Range<usize>, 0>(&empty, []).is_some());
    assert!(empty.get_many_mut_opt([]).is_some());
}

#[test]
fn concrete_scenario() {
    let mut v = vec![1, 2, 3, 4, 5];
    let [a, b, c] = generic::index_many_mut(&mut v, PresortedIndices::new([0, 2, 4]).unwrap());
    *a += 10;
    *b += 100;
    *c += 1000;
    assert_eq!(v, vec![11, 2, 103, 4, 1005]);
    assert!(simple::get_many(&v, [5]).is_none());
    assert_eq!(
        UnsortedIndices([1, 3, 3, 4]).describe_failure(5),
        GetManyErrorKind::NotUnique { many_idx_1: 1, many_idx_2: 2, slice_idx: 3 }
    );
}

#[test]
fn bounds_are_reported_before_repetitions() {
    assert_eq!(
        UnsortedIndices([1, 1, 9]).describe_failure(3),
        GetManyErrorKind::OutOfBounds { many_idx: 2, slice_idx: 9, slice_len: 3 }
    );
    assert_eq!(
        [2, 1, 9].describe_failure(3),
        GetManyErrorKind::OutOfBounds { many_idx: 2, slice_idx: 9, slice_len: 3 }
    );
    assert!(matches!(
        index_many::std_proposal::get_many_check_valid_kinds(&[1, 1, 9], 3),
        Err(ErrorKind::OutOfBounds)
    ));
}

#[test]
fn earliest_repetition_is_reported() {
    assert_eq!(
        UnsortedSpecializedIndices([7, 5, 7, 5]).describe_failure(8),
        GetManyErrorKind::NotUnique { many_idx_1: 0, many_idx_2: 2, slice_idx: 7 }
    );
    assert_eq!(
        [1, 2, 2, 1].describe_failure(8),
        GetManyErrorKind::NotUnique { many_idx_1: 1, many_idx_2: 2, slice_idx: 2 }
    );
}

#[test]
fn specialized_check_agrees_with_general_one() {
    let cases: [[usize; 3]; 6] = [[0, 1, 2], [2, 1, 0], [0, 0, 1], [0, 1, 0], [1, 0, 0], [0, 1, 3]];
    for c in cases {
        assert_eq!(UnsortedSpecializedIndices(c).is_valid(3), UnsortedIndices(c).is_valid(3));
    }
    assert!(UnsortedSpecializedIndices([1, 0]).is_valid(2));
    assert!(!UnsortedSpecializedIndices([1, 1]).is_valid(2));
    assert!(!UnsortedSpecializedIndices([2]).is_valid(2));
    assert!(UnsortedSpecializedIndices([3, 0, 2, 1]).is_valid(4));
    assert!(!UnsortedSpecializedIndices([3, 0, 2, 3]).is_valid(4));
}

#[test]
fn presorted_indices_check_only_the_last() {
    let p = PresortedIndices::new([0, 3, 7]).unwrap();
    assert!(p.is_valid(8));
    assert!(!p.is_valid(7));
    assert_eq!(p.to_raw_indices(), [0, 3, 7]);
    assert_eq!(*p, [0, 3, 7]);
    assert_eq!(p.as_array(), &[0, 3, 7]);
    assert_eq!(
        p.describe_failure(7),
        GetManyErrorKind::OutOfBounds { many_idx: 2, slice_idx: 7, slice_len: 7 }
    );
}

#[test]
fn unchecked_entry_points_with_valid_indices() {
    let mut v = vec![5, 6, 7];
    assert_eq!(simple::index_many_unchecked(&v, [2, 0]), [&7, &5]);
    let [a] = simple_result::index_many_mut_unchecked(&mut v, [1]);
    *a = 60;
    let [b, c] = generic::index_many_mut_unchecked(&mut v, UnsortedIndices([2, 0]));
    *b = 70;
    *c = 50;
    let [d] = v.get_many_unchecked_mut([0]);
    *d += 1;
    assert_eq!(v, vec![51, 60, 70]);
}
