use vstd::prelude::*;
use vstd::string::*;
use crate::text::chars_of;

verus! {

/// Why a greeting request was refused.
#[derive(Debug, Clone, Copy, PartialEq, Eq)]
pub enum GreetError {
    /// The request is malformed; the text says how.
    InvalidArgument(&'static str),
}

/// A character of the Unicode `White_Space` property, the whitespace of
/// `char::is_whitespace` and `str::trim`.
pub open spec fn is_white_space(c: char) -> bool {
    let u = c as u32;
    ||| 0x9 <= u <= 0xd
    ||| u == 0x20
    ||| u == 0x85
    ||| u == 0xa0
    ||| u == 0x1680
    ||| 0x2000 <= u <= 0x200a
    ||| u == 0x2028
    ||| u == 0x2029
    ||| u == 0x202f
    ||| u == 0x205f
    ||| u == 0x3000
}

/// Every character of `s` is whitespace (an empty `s` included).
pub open spec fn all_white_space(s: Seq<char>) -> bool {
    forall|k: int| 0 <= k < s.len() ==> is_white_space(#[trigger] s[k])
}

/// `s[i..j]` is `s` without its leading and trailing whitespace.
pub open spec fn trimmed_between(s: Seq<char>, i: int, j: int) -> bool {
    &&& 0 <= i <= j <= s.len()
    &&& forall|k: int| 0 <= k < i ==> is_white_space(#[trigger] s[k])
    &&& forall|k: int| j <= k < s.len() ==> is_white_space(#[trigger] s[k])
    &&& i < j ==> !is_white_space(s[i]) && !is_white_space(s[j - 1])
}

/// `t` is `s` without its leading and trailing whitespace.
pub open spec fn is_trim_of(s: Seq<char>, t: Seq<char>) -> bool {
    exists|i: int, j: int| trimmed_between(s, i, j) && t == s.subrange(i, j)
}

/// Whether `c` is whitespace.
fn white_space(c: char) -> (b: bool)
    ensures
        b == is_white_space(c),
{
    let u = c as u32;
    (0x9 <= u && u <= 0xd) || u == 0x20 || u == 0x85 || u == 0xa0 || u == 0x1680 || (0x2000 <= u
        && u <= 0x200a) || u == 0x2028 || u == 0x2029 || u == 0x202f || u == 0x205f || u == 0x3000
}

/// `s` without its leading and trailing whitespace, as `str::trim` gives it.
pub fn trim(s: &str) -> (r: &str)
    ensures
        is_trim_of(s@, r@),
{
    let v = chars_of(s);
    let n = v.len();
    let mut i: usize = 0;
    while i < n && white_space(v[i])
        invariant
            v@ == s@,
            n == v@.len(),
            i <= n,
            forall|k: int| 0 <= k < i ==> is_white_space(#[trigger] s@[k]),
        decreases n - i,
    {
        i = i + 1;
    }
    let mut j: usize = n;
    while j > i && white_space(v[j - 1])
        invariant
            v@ == s@,
            n == v@.len(),
            i <= j <= n,
            forall|k: int| j <= k < n ==> is_white_space(#[trigger] s@[k]),
        decreases j,
    {
        j = j - 1;
    }
    assert(trimmed_between(s@, i as int, j as int));
    s.substring_char(i, j)
}

/// The reply to a greeting request for `name`, given what trimming `name`
/// left (`trimmed_name`): refused when that is empty, else `Hello, <name>!`
/// with the name as it came.
pub fn greeting_reply(name: &str, trimmed_name: &str) -> (r: Result<String, GreetError>)
    ensures
        trimmed_name@.len() == 0 ==> r == Err::<String, GreetError>(
            GreetError::InvalidArgument("name 不能为空"),
        ),
        trimmed_name@.len() > 0 ==> (r matches Ok(s) && s@ == "Hello, "@ + name@ + "!"@),
{
    if trimmed_name.is_empty() {
        return Err(GreetError::InvalidArgument("name 不能为空"));
    }
    let mut reply = "Hello, ".to_owned();
    reply.append(name);
    reply.append("!");
    Ok(reply)
}

/// Answers a greeting request for `name`: a name that is empty or only
/// whitespace is refused, any other is greeted.
pub fn say_hello(name: &str) -> (r: Result<String, GreetError>)
    ensures
        all_white_space(name@) ==> r == Err::<String, GreetError>(
            GreetError::InvalidArgument("name 不能为空"),
        ),
        !all_white_space(name@) ==> (r matches Ok(s) && s@ == "Hello, "@ + name@ + "!"@),
{
    let t = trim(name);
    proof {
        let s = name@;
        let (i, j) = choose|i: int, j: int| trimmed_between(s, i, j) && t@ == s.subrange(i, j);
        if all_white_space(s) && i < j {
            assert(is_white_space(s[i]));
        }
        if !all_white_space(s) && i == j {
            let k = choose|k: int| 0 <= k < s.len() && !is_white_space(#[trigger] s[k]);
            assert(k < i || j <= k);
        }
    }
    greeting_reply(name, t)
}

} // verus!
