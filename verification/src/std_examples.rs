use vstd::prelude::*;
use vstd::string::*;
use crate::text::{decimal, push_decimal};

verus! {

/// The elements of `s` doubled, keeping those above `min`, in order.
pub open spec fn doubled_above_spec(s: Seq<i32>, min: i32) -> Seq<i32>
    decreases s.len(),
{
    if s.len() == 0 {
        Seq::empty()
    } else {
        let rest = doubled_above_spec(s.drop_last(), min);
        if 2 * s.last() > min {
            rest.push((2 * s.last()) as i32)
        } else {
            rest
        }
    }
}

/// The elements of `s` above `threshold`, in order.
pub open spec fn above_spec(s: Seq<i32>, threshold: i32) -> Seq<i32>
    decreases s.len(),
{
    if s.len() == 0 {
        Seq::empty()
    } else {
        let rest = above_spec(s.drop_last(), threshold);
        if s.last() > threshold {
            rest.push(s.last())
        } else {
            rest
        }
    }
}

/// The sum of the elements of `s`.
pub open spec fn sum_spec(s: Seq<i32>) -> int
    decreases s.len(),
{
    if s.len() == 0 {
        0
    } else {
        sum_spec(s.drop_last()) + s.last()
    }
}

/// Every element of `v` doubles without overflow.
pub open spec fn doubles_fit(s: Seq<i32>) -> bool {
    forall|i: int| 0 <= i < s.len() ==> i32::MIN <= 2 * #[trigger] s[i] <= i32::MAX
}

/// Every running sum of `s`, front to back, fits in an `i32`.
pub open spec fn running_sums_fit(s: Seq<i32>) -> bool {
    forall|k: int| 0 <= k <= s.len() ==> i32::MIN <= #[trigger] sum_spec(s.take(k)) <= i32::MAX
}

/// Each element of `s` doubled.
pub open spec fn doubled(s: Seq<i32>) -> Seq<int> {
    s.map_values(|x: i32| 2 * x)
}

/// The elements of `s` strictly above `min`, in order.
pub open spec fn kept_above(s: Seq<int>, min: int) -> Seq<int> {
    s.filter(|y: int| y > min)
}

/// The values of a sequence of `i32`s as integers.
pub open spec fn as_ints(s: Seq<i32>) -> Seq<int> {
    s.map_values(|x: i32| x as int)
}

/// Doubling and then keeping what is strictly above `min` gives exactly the
/// doubled inputs above `min`, in input order; every kept value is above `min`.
pub proof fn lemma_doubled_above_is_map_then_filter(s: Seq<i32>, min: i32)
    requires
        doubles_fit(s),
    ensures
        as_ints(doubled_above_spec(s, min)) == kept_above(doubled(s), min as int),
        forall|i: int|
            0 <= i < doubled_above_spec(s, min).len() ==> #[trigger] doubled_above_spec(s, min)[i]
                > min,
    decreases s.len(),
{
    reveal(Seq::filter);
    let r = doubled_above_spec(s, min);
    if s.len() == 0 {
        assert(as_ints(r) =~= kept_above(doubled(s), min as int));
    } else {
        let p = s.drop_last();
        assert(doubles_fit(p)) by {
            assert forall|i: int| 0 <= i < p.len() implies i32::MIN <= 2 * #[trigger] p[i]
                <= i32::MAX by {
                assert(p[i] == s[i]);
            }
        }
        lemma_doubled_above_is_map_then_filter(p, min);
        assert(doubled(s).drop_last() =~= doubled(p));
        assert(doubled(s).last() == 2 * s.last());
        assert(i32::MIN <= 2 * s[s.len() - 1] <= i32::MAX);
        let rp = doubled_above_spec(p, min);
        if 2 * s.last() > min {
            assert(as_ints(r) =~= as_ints(rp).push(2 * s.last()));
        } else {
            assert(as_ints(r) =~= as_ints(rp));
        }
        assert forall|i: int| 0 <= i < r.len() implies #[trigger] r[i] > min by {
            if i < rp.len() {
                assert(r[i] == rp[i]);
            }
        }
    }
}

/// Doubles each element and keeps the results above `min`
/// (`map(|n| n * 2).filter(|n| n > min)`).
pub fn doubled_above(v: &Vec<i32>, min: i32) -> (r: Vec<i32>)
    requires
        doubles_fit(v@),
    ensures
        r@ == doubled_above_spec(v@, min),
        as_ints(r@) == kept_above(doubled(v@), min as int),
        forall|i: int| 0 <= i < r@.len() ==> #[trigger] r@[i] > min,
{
    let mut r: Vec<i32> = Vec::new();
    let mut i: usize = 0;
    while i < v.len()
        invariant
            i <= v@.len(),
            doubles_fit(v@),
            r@ == doubled_above_spec(v@.take(i as int), min),
        decreases v@.len() - i,
    {
        assert(v@.take(i + 1).drop_last() =~= v@.take(i as int));
        let d = v[i] * 2;
        if d > min {
            r.push(d);
        }
        i = i + 1;
    }
    assert(v@.take(v@.len() as int) =~= v@);
    proof {
        lemma_doubled_above_is_map_then_filter(v@, min);
    }
    r
}

/// Keeping the elements above `threshold` keeps exactly the inputs strictly
/// above it, in input order.
pub proof fn lemma_above_is_filter(s: Seq<i32>, threshold: i32)
    ensures
        as_ints(above_spec(s, threshold)) == kept_above(as_ints(s), threshold as int),
    decreases s.len(),
{
    reveal(Seq::filter);
    if s.len() == 0 {
        assert(as_ints(above_spec(s, threshold)) =~= kept_above(as_ints(s), threshold as int));
    } else {
        let p = s.drop_last();
        lemma_above_is_filter(p, threshold);
        assert(as_ints(s).drop_last() =~= as_ints(p));
        if s.last() > threshold {
            assert(as_ints(above_spec(s, threshold)) =~= as_ints(above_spec(p, threshold)).push(
                s.last() as int,
            ));
        } else {
            assert(as_ints(above_spec(s, threshold)) =~= as_ints(above_spec(p, threshold)));
        }
    }
}

/// The sum of `s` as a left fold from 0, the way `fold(0, |acc, x| acc + x)`
/// adds.
pub proof fn lemma_sum_is_fold(s: Seq<i32>)
    ensures
        sum_spec(s) == s.fold_left(0int, |acc: int, x: i32| acc + x),
    decreases s.len(),
{
    if s.len() > 0 {
        lemma_sum_is_fold(s.drop_last());
    }
}

/// The elements above `threshold` (`filter(|n| n > threshold)`).
pub fn above(v: &Vec<i32>, threshold: i32) -> (r: Vec<i32>)
    ensures
        r@ == above_spec(v@, threshold),
        as_ints(r@) == kept_above(as_ints(v@), threshold as int),
{
    let mut r: Vec<i32> = Vec::new();
    let mut i: usize = 0;
    while i < v.len()
        invariant
            i <= v@.len(),
            r@ == above_spec(v@.take(i as int), threshold),
        decreases v@.len() - i,
    {
        assert(v@.take(i + 1).drop_last() =~= v@.take(i as int));
        if v[i] > threshold {
            r.push(v[i]);
        }
        i = i + 1;
    }
    assert(v@.take(v@.len() as int) =~= v@);
    proof {
        lemma_above_is_filter(v@, threshold);
    }
    r
}

/// The sum of the elements, added front to back (`fold(0, |acc, x| acc + x)`).
pub fn sum(v: &Vec<i32>) -> (r: i32)
    requires
        running_sums_fit(v@),
    ensures
        r == sum_spec(v@),
        r == v@.fold_left(0int, |acc: int, x: i32| acc + x),
{
    let mut acc: i32 = 0;
    let mut i: usize = 0;
    while i < v.len()
        invariant
            i <= v@.len(),
            running_sums_fit(v@),
            acc == sum_spec(v@.take(i as int)),
        decreases v@.len() - i,
    {
        assert(v@.take(i + 1).drop_last() =~= v@.take(i as int));
        assert(i32::MIN <= sum_spec(v@.take(i + 1)) <= i32::MAX);
        acc = acc + v[i];
        i = i + 1;
    }
    assert(v@.take(v@.len() as int) =~= v@);
    proof {
        lemma_sum_is_fold(v@);
    }
    acc
}

/// How `{}` writes an `i32`.
pub open spec fn signed_decimal(n: int) -> Seq<char> {
    if n < 0 {
        "-"@ + decimal((-n) as nat)
    } else {
        decimal(n as nat)
    }
}

/// The line reporting the score of `name`, or that there is none.
pub open spec fn score_line(name: Seq<char>, score: Option<i32>) -> Seq<char> {
    match score {
        Some(s) => name + " 的分数是 "@ + signed_decimal(s as int),
        None => "找不到 "@ + name + " 的分数"@,
    }
}

/// Reports the score looked up for `name`
/// (`map(|s| format!(..)).unwrap_or_else(..)` on the lookup).
pub fn score_message(name: &str, score: Option<i32>) -> (m: String)
    ensures
        m@ == score_line(name@, score),
{
    match score {
        Some(s) => {
            let mut m = name.to_owned();
            m.append(" 的分数是 ");
            if s < 0 {
                m.append("-");
                let mag: u64 = (-(s as i64)) as u64;
                push_decimal(&mut m, mag);
            } else {
                push_decimal(&mut m, s as u64);
            }
            m
        },
        None => {
            let mut m = "找不到 ".to_owned();
            m.append(name);
            m.append(" 的分数");
            m
        },
    }
}

} // verus!
