use rust_study::calculator::{internal_helper, is_palindrome, CalcError, Calculator};

#[test]
fn test_add() {
    assert_eq!(Calculator::add(2, 3), 5);
    assert_eq!(Calculator::add(-1, 1), 0);
}

#[test]
fn test_div_ok() {
    assert_eq!(Calculator::div(10, 2), Ok(5));
}

#[test]
fn test_div_by_zero() {
    let err = Calculator::div(10, 0).unwrap_err();
    assert!(matches!(err, CalcError::DivisionByZero));
    assert_eq!(err.to_string(), "除数不能为零");
}

#[test]
fn test_internal_helper() {
    assert_eq!(internal_helper(21), 42);
}

#[test]
fn test_calculator_from_outside() {
    assert_eq!(Calculator::add(1, 2), 3);
    assert!(matches!(Calculator::div(1, 0), Err(CalcError::DivisionByZero)));
}

#[test]
fn test_palindrome_from_outside() {
    assert!(is_palindrome("racecar"));
    assert!(is_palindrome("上海自来水来自海上"));
    assert!(!is_palindrome("rust"));
    assert!(is_palindrome(""));
}

#[test]
fn div_truncates_toward_zero() {
    assert_eq!(Calculator::div(7, 2), Ok(3));
    assert_eq!(Calculator::div(-7, 2), Ok(-3));
    assert_eq!(Calculator::div(7, -2), Ok(-3));
    assert_eq!(Calculator::div(-7, -2), Ok(3));
    assert_eq!(Calculator::div(i64::MIN, 1), Ok(i64::MIN));
    assert_eq!(Calculator::div(i64::MIN, 2), Ok(i64::MIN / 2));
    assert_eq!(Calculator::div(i64::MAX, -1), Ok(-i64::MAX));
    assert_eq!(Calculator::div(0, -5), Ok(0));
}

#[test]
fn add_commutes_on_samples() {
    for (a, b) in [(3, 4), (-100000, 99999), (0, -7)] {
        assert_eq!(Calculator::add(a, b), Calculator::add(b, a));
    }
}

#[test]
fn doubled_with_reverse_is_palindrome_on_samples() {
    for s in ["", "a", "ab", "rust", "上海"] {
        let doubled = format!("{}{}", s, s.chars().rev().collect::<String>());
        assert!(is_palindrome(&doubled));
    }
}

#[test]
fn palindrome_edge_cases() {
    assert!(is_palindrome("a"));
    assert!(is_palindrome("aa"));
    assert!(!is_palindrome("ab"));
    assert!(is_palindrome("abcba"));
    assert!(!is_palindrome("abca"));
}
