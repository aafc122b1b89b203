use vstd::prelude::*;
use crate::text::{decimal, push_decimal, str_eq};
use vstd::string::*;

verus! {

/// Why a withdrawal was refused.
#[derive(Debug)]
pub enum AccountError {
    /// No account has this name.
    NotFound(String),
    /// The balance is smaller than the amount asked for.
    InsufficientFunds { required: u64, available: u64 },
    /// The amount is not a valid withdrawal.
    InvalidAmount(u64),
}

/// The message that describes an account error.
pub open spec fn error_message(e: AccountError) -> Seq<char> {
    match e {
        AccountError::NotFound(n) => "账户 '"@ + n@ + "' 不存在"@,
        AccountError::InsufficientFunds { required, available } => "余额不足: 需要 "@ + decimal(
            required as nat,
        ) + "，实际 "@ + decimal(available as nat),
        AccountError::InvalidAmount(a) => "金额无效: "@ + decimal(a as nat),
    }
}

impl AccountError {
    /// The message that describes the error.
    pub fn to_string(&self) -> (m: String)
        ensures
            m@ == error_message(*self),
    {
        match self {
            AccountError::NotFound(n) => {
                let mut m = "账户 '".to_owned();
                m.append(n.as_str());
                m.append("' 不存在");
                m
            },
            AccountError::InsufficientFunds { required, available } => {
                let mut m = "余额不足: 需要 ".to_owned();
                push_decimal(&mut m, *required);
                m.append("，实际 ");
                push_decimal(&mut m, *available);
                m
            },
            AccountError::InvalidAmount(a) => {
                let mut m = "金额无效: ".to_owned();
                push_decimal(&mut m, *a);
                m
            },
        }
    }
}

/// The balance on record for the account called `name`, if there is one.
pub open spec fn balance_on_record(name: Seq<char>) -> Option<u64> {
    if name == "alice"@ {
        Some(1000u64)
    } else if name == "bob"@ {
        Some(50u64)
    } else {
        None
    }
}

/// What a withdrawal of `amount` from the account called `name` gives.
pub open spec fn withdrawal(name: Seq<char>, amount: u64, r: Result<u64, AccountError>) -> bool {
    match balance_on_record(name) {
        None => r matches Err(AccountError::NotFound(n)) && n@ == name,
        Some(balance) => if amount == 0 {
            r matches Err(AccountError::InvalidAmount(a)) && a == amount
        } else if amount > balance {
            r matches Err(AccountError::InsufficientFunds { required, available })
                && required == amount && available == balance
        } else {
            r == Ok::<u64, AccountError>((balance - amount) as u64)
        },
    }
}

/// A fixed set of accounts that money can be withdrawn from.
pub struct AccountService;

impl AccountService {
    /// Withdraws `amount` from the account called `name` and returns the
    /// balance left. Refuses an unknown account, an amount of zero, and an
    /// amount above the balance, in that order.
    pub fn withdraw(&self, name: &str, amount: u64) -> (r: Result<u64, AccountError>)
        ensures
            withdrawal(name@, amount, r),
            r is Ok <==> (balance_on_record(name@) matches Some(b) && 0 < amount <= b),
            (balance_on_record(name@) matches Some(b) && 0 < amount <= b) ==> r == Ok::<
                u64,
                AccountError,
            >((balance_on_record(name@).unwrap() - amount) as u64),
    {
        let balance = match self.balance_of(name) {
            Ok(b) => b,
            Err(e) => return Err(e),
        };
        if amount == 0 {
            return Err(AccountError::InvalidAmount(amount));
        }
        if amount > balance {
            return Err(AccountError::InsufficientFunds { required: amount, available: balance });
        }
        Ok(balance - amount)
    }

    /// The balance of the account called `name`.
    pub fn balance_of(&self, name: &str) -> (r: Result<u64, AccountError>)
        ensures
            match balance_on_record(name@) {
                Some(b) => r == Ok::<u64, AccountError>(b),
                None => r matches Err(AccountError::NotFound(n)) && n@ == name@,
            },
    {
        if str_eq(name, "alice") {
            Ok(1_000)
        } else if str_eq(name, "bob") {
            Ok(50)
        } else {
            Err(AccountError::NotFound(name.to_owned()))
        }
    }
}

/// Every withdrawal of a positive amount within the balance of a known account
/// succeeds and leaves the balance minus the amount; every other withdrawal is
/// refused.
pub proof fn lemma_withdrawal_within_balance_succeeds(
    name: Seq<char>,
    amount: u64,
    r: Result<u64, AccountError>,
)
    requires
        withdrawal(name, amount, r),
    ensures
        r is Ok <==> (balance_on_record(name) matches Some(b) && 0 < amount <= b),
        (balance_on_record(name) matches Some(b) && 0 < amount <= b) ==> (r matches Ok(left)
            && left + amount == balance_on_record(name).unwrap()),
{
}

/// A successful withdrawal leaves the balance on record minus the amount,
/// never more than was there.
pub proof fn lemma_withdrawal_never_overdraws(name: Seq<char>, amount: u64, left: u64)
    requires
        withdrawal(name, amount, Ok(left)),
    ensures
        balance_on_record(name) matches Some(b) && 0 < amount <= b && left == b - amount,
{
}

} // verus!
