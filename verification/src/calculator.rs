use vstd::prelude::*;
use crate::text::chars_of;

verus! {

/// The absolute value of an integer.
pub open spec fn abs(x: int) -> int {
    if x < 0 { -x } else { x }
}

/// The quotient of `a / b` as Rust computes it on integers: the quotient of the
/// magnitudes, negated when the signs differ (truncation toward zero).
pub open spec fn trunc_div(a: int, b: int) -> int
    recommends
        b != 0,
{
    let q = abs(a) / abs(b);
    if (a < 0) == (b < 0) { q } else { -q }
}

/// The quotient `q` of a division truncates: the remainder `a - q * b` is
/// smaller than the divisor in magnitude, and is zero or has the sign of `a`.
pub proof fn lemma_trunc_div_remainder(a: int, b: int)
    requires
        b != 0,
    ensures
        abs(a - trunc_div(a, b) * b) < abs(b),
        a - trunc_div(a, b) * b == 0 || ((a - trunc_div(a, b) * b > 0) == (a > 0)),
{
    let q = abs(a) / abs(b);
    let r = abs(a) % abs(b);
    assert(abs(a) == q * abs(b) + r && 0 <= r < abs(b)) by (nonlinear_arith)
        requires
            abs(b) > 0,
            q == abs(a) / abs(b),
            r == abs(a) % abs(b),
    ;
    if a >= 0 && b > 0 {
        assert(a - q * b == r);
    } else if a >= 0 && b < 0 {
        assert(trunc_div(a, b) == -q);
        assert(-q * b == q * abs(b)) by (nonlinear_arith)
            requires
                b < 0,
        ;
        assert(a - (-q) * b == r);
    } else if a < 0 && b > 0 {
        assert(trunc_div(a, b) == -q);
        assert((-q) * b == -(q * abs(b))) by (nonlinear_arith)
            requires
                b > 0,
        ;
        assert(a - (-q) * b == -r);
    } else {
        assert(trunc_div(a, b) == q);
        assert(q * b == -(q * abs(b))) by (nonlinear_arith)
            requires
                b < 0,
        ;
        assert(a - q * b == -r);
    }
}

/// The magnitude of an `i64` as a `u64`.
fn magnitude(x: i64) -> (m: u64)
    ensures
        m == abs(x as int),
{
    if x < 0 {
        let y: i64 = -(x + 1);
        (y as u64) + 1
    } else {
        x as u64
    }
}

/// Errors of the calculator.
#[derive(Debug, PartialEq, Eq, Structural, Clone, Copy)]
pub enum CalcError {
    /// The divisor was zero.
    DivisionByZero,
}

impl CalcError {
    /// The message that describes the error.
    pub fn to_string(&self) -> (s: String)
        ensures
            s@ == "除数不能为零"@,
    {
        match self {
            CalcError::DivisionByZero => "除数不能为零".to_owned(),
        }
    }
}

/// A small calculator over `i64`.
pub struct Calculator;

impl Calculator {
    /// Adds two numbers.
    pub fn add(a: i64, b: i64) -> (r: i64)
        requires
            i64::MIN <= a + b <= i64::MAX,
        ensures
            r == a + b,
    {
        a + b
    }

    /// Divides `a` by `b`, truncating toward zero; a zero divisor is an error.
    pub fn div(a: i64, b: i64) -> (r: Result<i64, CalcError>)
        requires
            !(a == i64::MIN && b == -1),
        ensures
            b == 0 <==> r == Err::<i64, CalcError>(CalcError::DivisionByZero),
            b != 0 ==> r == Ok::<i64, CalcError>(trunc_div(a as int, b as int) as i64),
    {
        if b == 0 {
            return Err(CalcError::DivisionByZero);
        }
        let q: u64 = magnitude(a) / magnitude(b);
        proof {
            // A quotient of 2^63 needs a magnitude of 2^63 over a divisor of 1.
            if q == 0x8000_0000_0000_0000u64 {
                assert(abs(b as int) == 1) by (nonlinear_arith)
                    requires
                        q == abs(a as int) / abs(b as int),
                        abs(a as int) <= 0x8000_0000_0000_0000,
                        abs(b as int) >= 1,
                        q == 0x8000_0000_0000_0000,
                ;
            }
        }
        if (a < 0) == (b < 0) {
            Ok(q as i64)
        } else if q == 0x8000_0000_0000_0000u64 {
            Ok(i64::MIN)
        } else {
            Ok(-(q as i64))
        }
    }
}

/// A sequence of characters reads the same forwards and backwards.
pub open spec fn palindromic(s: Seq<char>) -> bool {
    s =~= s.reverse()
}

/// Whether `s` reads the same forwards and backwards, character by character.
pub fn is_palindrome(s: &str) -> (r: bool)
    ensures
        r == palindromic(s@),
{
    let chars = chars_of(s);
    let n = chars.len();
    let mut i: usize = 0;
    while i < n / 2
        invariant
            n == chars@.len(),
            chars@ == s@,
            i <= n / 2,
            forall|j: int| 0 <= j < i ==> #[trigger] chars@[j] == chars@[n - 1 - j],
        decreases n / 2 - i,
    {
        if chars[i] != chars[n - 1 - i] {
            assert(s@.reverse()[n - 1 - i] == s@[i as int]);
            return false;
        }
        i = i + 1;
    }
    assert forall|j: int| 0 <= j < n implies s@.reverse()[j] == s@[j] by {
        if j < n / 2 {
        } else if j >= n - n / 2 {
            assert(chars@[n - 1 - j] == chars@[n - 1 - (n - 1 - j)]);
        } else {
            assert(j == n - 1 - j);
        }
    }
    true
}

/// Twice its argument.
pub fn internal_helper(x: i64) -> (r: i64)
    requires
        i64::MIN <= 2 * x <= i64::MAX,
    ensures
        r == 2 * x,
{
    x * 2
}

/// Addition is commutative.
pub proof fn lemma_add_commutative(a: i64, b: i64)
    requires
        i64::MIN <= a + b <= i64::MAX,
    ensures
        a + b == b + a,
{
}

/// A string followed by its own reversal is a palindrome.
pub proof fn lemma_doubled_with_reverse_is_palindrome(s: Seq<char>)
    ensures
        palindromic(s + s.reverse()),
{
    let d = s + s.reverse();
    assert forall|j: int| 0 <= j < d.len() implies d.reverse()[j] == d[j] by {
        if j < s.len() {
            assert(d.reverse()[j] == d[d.len() - 1 - j]);
        } else {
            assert(d.reverse()[j] == d[d.len() - 1 - j]);
        }
    }
}

} // verus!
