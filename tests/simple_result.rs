use index_many::simple_result::{index_many, index_many_mut};

#[test]
fn simple_result_test_mut_normal() {
    let mut v = vec![1, 2, 3, 4, 5];
    let [a, b, c] = index_many_mut(&mut v, [0, 2, 4]);
    *b += 100;
    *a += 10;
    *c += 1000;
    std::mem::swap(a, b);
    assert_eq!(v, vec![103, 2, 11, 4, 1005]);
}

#[test]
fn simple_result_test_ref_normal() {
    let v = vec![1, 2, 3, 4, 5];
    let [a, b, c] = index_many(&v, [0, 2, 4]);
    assert_eq!(a, &1);
    assert_eq!(b, &3);
    assert_eq!(c, &5);
    assert_eq!(v, vec![1, 2, 3, 4, 5]);
}

#[test]
fn simple_result_test_mut_empty() {
    let mut v = vec![1, 2, 3, 4, 5];
    let [] = index_many_mut(&mut v, []);
    assert_eq!(v, vec![1, 2, 3, 4, 5]);
}

#[test]
fn simple_result_test_ref_empty() {
    let v = vec![1, 2, 3, 4, 5];
    let [] = index_many(&v, []);
    assert_eq!(v, vec![1, 2, 3, 4, 5]);
}

#[test]
fn simple_result_test_mut_single_first() {
    let mut v = vec![1, 2, 3, 4, 5];
    let [a] = index_many_mut(&mut v, [0]);
    *a += 10;
    assert_eq!(v, vec![11, 2, 3, 4, 5]);
}

#[test]
fn simple_result_test_ref_single_first() {
    let v = vec![1, 2, 3, 4, 5];
    let [a] = index_many(&v, [0]);
    assert_eq!(a, &1);
    assert_eq!(v, vec![1, 2, 3, 4, 5]);
}

#[test]
fn simple_result_test_mut_single_last() {
    let mut v = vec![1, 2, 3, 4, 5];
    let [a] = index_many_mut(&mut v, [4]);
    *a += 10;
    assert_eq!(v, vec![1, 2, 3, 4, 15]);
}

#[test]
fn simple_result_test_ref_single_last() {
    let v = vec![1, 2, 3, 4, 5];
    let [a] = index_many(&v, [4]);
    assert_eq!(a, &5);
    assert_eq!(v, vec![1, 2, 3, 4, 5]);
}
