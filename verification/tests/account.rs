use rust_study::account::{AccountError, AccountService};

#[test]
fn withdraw_within_balance() {
    let svc = AccountService;
    assert_eq!(svc.withdraw("alice", 200).unwrap(), 800);
    assert_eq!(svc.withdraw("alice", 1000).unwrap(), 0);
    assert_eq!(svc.withdraw("bob", 50).unwrap(), 0);
}

#[test]
fn withdraw_more_than_balance() {
    let svc = AccountService;
    match svc.withdraw("bob", 100) {
        Err(AccountError::InsufficientFunds { required, available }) => {
            assert_eq!(required, 100);
            assert_eq!(available, 50);
        }
        other => panic!("unexpected: {:?}", other),
    }
}

#[test]
fn withdraw_from_unknown_account() {
    let svc = AccountService;
    match svc.withdraw("ghost", 10) {
        Err(AccountError::NotFound(name)) => assert_eq!(name, "ghost"),
        other => panic!("unexpected: {:?}", other),
    }
    assert!(matches!(svc.withdraw("Alice", 1), Err(AccountError::NotFound(_))));
}

#[test]
fn withdraw_zero_is_invalid() {
    let svc = AccountService;
    assert!(matches!(svc.withdraw("alice", 0), Err(AccountError::InvalidAmount(0))));
    // the account is looked up before the amount is checked
    assert!(matches!(svc.withdraw("ghost", 0), Err(AccountError::NotFound(_))));
}

#[test]
fn balances_on_record() {
    let svc = AccountService;
    assert_eq!(svc.balance_of("alice").unwrap(), 1000);
    assert_eq!(svc.balance_of("bob").unwrap(), 50);
    assert!(svc.balance_of("").is_err());
}

#[test]
fn error_messages() {
    let svc = AccountService;
    let e = svc.withdraw("bob", 100).unwrap_err();
    assert!(matches!(e, AccountError::InsufficientFunds { required: 100, available: 50 }));
    assert_eq!(e.to_string(), "余额不足: 需要 100，实际 50");
    assert_eq!(svc.withdraw("ghost", 10).unwrap_err().to_string(), "账户 'ghost' 不存在");
    assert_eq!(svc.withdraw("alice", 0).unwrap_err().to_string(), "金额无效: 0");
    let big = AccountError::InsufficientFunds { required: u64::MAX, available: 1_000 };
    assert_eq!(big.to_string(), "余额不足: 需要 18446744073709551615，实际 1000");
}
