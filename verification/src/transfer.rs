use vstd::prelude::*;
use vstd::string::*;

verus! {

/// The decision after the debit of a transfer from `from`: the debit only
/// touches a row when the account exists and holds at least the amount, so
/// touching no row aborts the transfer (and rolls it back).
pub fn after_debit(from: &str, rows_affected: u64) -> (r: Result<(), String>)
    ensures
        rows_affected > 0 <==> r is Ok,
        r matches Err(m) ==> m@ == "账户 "@ + from@ + " 不存在或余额不足"@,
{
    if rows_affected == 0 {
        let mut m = "账户 ".to_owned();
        m.append(from);
        m.append(" 不存在或余额不足");
        return Err(m);
    }
    Ok(())
}

/// The decision after the credit of a transfer to `to`: touching no row means
/// the receiving account does not exist, which aborts the transfer (and rolls
/// it back); otherwise the transfer commits.
pub fn after_credit(to: &str, rows_affected: u64) -> (r: Result<(), String>)
    ensures
        rows_affected > 0 <==> r is Ok,
        r matches Err(m) ==> m@ == "收款账户 "@ + to@ + " 不存在"@,
{
    if rows_affected == 0 {
        let mut m = "收款账户 ".to_owned();
        m.append(to);
        m.append(" 不存在");
        return Err(m);
    }
    Ok(())
}

} // verus!
