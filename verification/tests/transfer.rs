use rust_study::transfer::{after_credit, after_debit};

#[test]
fn debit_decision() {
    assert_eq!(after_debit("alice", 1), Ok(()));
    assert_eq!(after_debit("bob", 0), Err("账户 bob 不存在或余额不足".to_string()));
}

#[test]
fn credit_decision() {
    assert_eq!(after_credit("alice", 2), Ok(()));
    assert_eq!(after_credit("carol", 0), Err("收款账户 carol 不存在".to_string()));
}
