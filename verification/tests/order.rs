use uk_property_search_data::order::distinct_order;
use uk_property_search_data::order::stable_order;

#[test]
fn stable_order_sorts_and_keeps_ties_in_place() {
    assert_eq!(stable_order(&vec![3, 1, 2]), vec![1, 2, 0]);
    assert_eq!(stable_order(&vec![5, 5, 1, 5, 1]), vec![2, 4, 0, 1, 3]);
    assert_eq!(stable_order(&Vec::new()), Vec::<usize>::new());
    assert_eq!(stable_order(&vec![i64::MAX, i64::MIN]), vec![1, 0]);
}

#[test]
fn distinct_order_keeps_the_first_of_each_key() {
    assert_eq!(distinct_order(&vec![3, 1, 3, 2, 1]), vec![1, 3, 0]);
    assert_eq!(distinct_order(&vec![7, 7, 7]), vec![0]);
    assert_eq!(distinct_order(&Vec::new()), Vec::<usize>::new());
    assert_eq!(distinct_order(&vec![1, 2, 3]), vec![0, 1, 2]);
}

#[test]
fn orders_agree_with_a_stable_sort() {
    let mut seed: u64 = 42;
    for length in 0..40usize {
        let mut keys: Vec<i64> = Vec::new();
        for _ in 0..length {
            seed = seed.wrapping_mul(6364136223846793005).wrapping_add(1442695040888963407);
            keys.push(((seed >> 40) % 7) as i64);
        }
        let mut expected: Vec<usize> = (0..length).collect();
        expected.sort_by_key(|i| keys[*i]);
        assert_eq!(stable_order(&keys), expected);
        expected.dedup_by_key(|i| keys[*i]);
        assert_eq!(distinct_order(&keys), expected);
    }
}
