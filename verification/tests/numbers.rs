use moblink_rust::numbers::{lowest_free, taken_back};

#[test]
fn the_lowest_free_number_is_given_out() {
    assert_eq!(lowest_free(&vec![]), 0);
    assert_eq!(lowest_free(&vec![0, 1, 2]), 3);
    assert_eq!(lowest_free(&vec![2, 0]), 1);
    assert_eq!(lowest_free(&vec![1, 2, u64::MAX]), 0);
}

#[test]
fn a_number_comes_back() {
    assert_eq!(taken_back(&vec![3, 1, 2], 1), vec![3, 2]);
    assert_eq!(taken_back(&vec![3, 1, 2], 7), vec![3, 1, 2]);
    assert_eq!(lowest_free(&taken_back(&vec![0, 1, 2], 1)), 1);
}
