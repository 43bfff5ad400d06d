use index_many::slice_index::ranges::{check_range_indices_valid, range_check_fail, RangeErrorKind};
use index_many::slice_index::{get_many, get_many_mut, index_many, index_many_mut};

#[test]
fn ranges_give_disjoint_sub_slices() {
    let v = vec![1, 2, 3, 4, 5];
    let [a, b] = index_many(&v, [0..2, 3..5]);
    assert_eq!(a, &[1, 2]);
    assert_eq!(b, &[4, 5]);
    let [c, d] = index_many(&v, [1..1, 1..3]);
    assert!(c.is_empty());
    assert_eq!(d, &[2, 3]);
}

#[test]
fn mutable_ranges_write_back() {
    let mut v = vec![1, 2, 3, 4, 5];
    let [a, b] = index_many_mut(&mut v, [0..2, 2..5]);
    a[0] = 10;
    b[2] = 50;
    a.swap(0, 1);
    assert_eq!(v, vec![2, 10, 3, 4, 50]);
}

#[test]
fn inclusive_ranges() {
    let mut v = vec![1, 2, 3, 4, 5];
    assert_eq!(get_many(&v, [0..=1, 3..=4]), Some([&[1, 2][..], &[4, 5][..]]));
    assert!(get_many(&v, [0..=1, 1..=2]).is_none());
    assert!(get_many(&v, [3..=5]).is_none());
    let [a] = get_many_mut(&mut v, [4..=4]).unwrap();
    a[0] = 0;
    assert_eq!(v, vec![1, 2, 3, 4, 0]);
}

#[test]
fn invalid_ranges_are_refused() {
    let mut v = vec![1, 2, 3, 4, 5];
    assert!(get_many(&v, [0..3, 2..4]).is_none());
    assert!(get_many(&v, [3..5, 0..1]).is_none());
    assert!(get_many(&v, [0..6]).is_none());
    #[allow(clippy::reversed_empty_ranges)]
    let reversed = [3..2];
    assert!(get_many_mut(&mut v, reversed).is_none());
    assert_eq!(v, vec![1, 2, 3, 4, 5]);
}

#[test]
fn range_check_and_failure() {
    assert!(check_range_indices_valid(&[0..1, 1..4], 4));
    assert!(!check_range_indices_valid(&[0..1, 1..5], 4));
    #[allow(clippy::reversed_empty_ranges)]
    let reversed = [0..1, 3..2, 9..10];
    assert_eq!(range_check_fail(&reversed, 4), RangeErrorKind::Reversed { many_idx: 1 });
    assert_eq!(range_check_fail(&[0..3, 2..6], 4), RangeErrorKind::OutOfBounds { many_idx: 1, slice_len: 4 });
    assert_eq!(range_check_fail(&[0..3, 2..4], 4), RangeErrorKind::Overlapping { many_idx_1: 0, many_idx_2: 1 });
}
