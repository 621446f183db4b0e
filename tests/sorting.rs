use lux::sort::{partition, quicksort};

fn is_sorted(v: &[i32]) -> bool {
    v.windows(2).all(|w| w[0] <= w[1])
}

#[test]
fn quicksort_sorts_sample_list() {
    let mut list = vec![12, 26, 64, 82, 47, 78, 52, 86, 24, 32, 49, 50, 86, 94, 53, 38, 16, 74, 2];
    quicksort(&mut list);
    assert_eq!(
        list,
        vec![2, 12, 16, 24, 26, 32, 38, 47, 49, 50, 52, 53, 64, 74, 78, 82, 86, 86, 94]
    );
}

#[test]
fn quicksort_small_and_duplicate_inputs() {
    let mut empty: Vec<i32> = vec![];
    quicksort(&mut empty);
    assert!(empty.is_empty());
    let mut one = vec![5];
    quicksort(&mut one);
    assert_eq!(one, vec![5]);
    let mut two = vec![9, -3];
    quicksort(&mut two);
    assert_eq!(two, vec![-3, 9]);
    let mut same = vec![4, 4, 4, 4];
    quicksort(&mut same);
    assert_eq!(same, vec![4, 4, 4, 4]);
    let mut extremes = vec![i32::MAX, 0, i32::MIN, -1, i32::MAX];
    quicksort(&mut extremes);
    assert_eq!(extremes, vec![i32::MIN, -1, 0, i32::MAX, i32::MAX]);
    assert!(is_sorted(&extremes));
}

#[test]
fn partition_places_middle_value() {
    let mut v = vec![7, 3, 9, 5, 1];
    let p = partition(&mut v);
    assert_eq!(v[p], 9);
    assert!(v[..p].iter().all(|&a| a <= v[p]));
    assert!(v[p + 1..].iter().all(|&a| a >= v[p]));
    let mut sorted = v.clone();
    sorted.sort();
    assert_eq!(sorted, vec![1, 3, 5, 7, 9]);
}
