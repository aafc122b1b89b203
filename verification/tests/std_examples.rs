use rust_study::std_examples::{above, doubled_above, score_message, sum};

#[test]
fn iterator_examples() {
    let numbers = vec![1, 2, 3, 4, 5];
    assert_eq!(doubled_above(&numbers, 5), vec![6, 8, 10]);
    assert_eq!(sum(&numbers), 15);
    assert_eq!(above(&numbers, 3), vec![4, 5]);
    assert_eq!(doubled_above(&vec![-3, 0, 3], -1), vec![0, 6]);
    assert_eq!(sum(&vec![]), 0);
    assert_eq!(above(&vec![i32::MIN, i32::MAX], 0), vec![i32::MAX]);
}

#[test]
fn score_messages() {
    assert_eq!(score_message("Bob", None), "找不到 Bob 的分数");
    assert_eq!(score_message("Alice", Some(100)), "Alice 的分数是 100");
    assert_eq!(score_message("X", Some(-7)), "X 的分数是 -7");
    assert_eq!(score_message("Y", Some(i32::MIN)), "Y 的分数是 -2147483648");
    assert_eq!(score_message("Z", Some(0)), "Z 的分数是 0");
}
