use vstd::prelude::*;
use crate::clock::{read_clock, ClockReading};
use crate::text::strip_prefix;

verus! {

/// An error answered to an HTTP request.
#[derive(Debug, Clone, Copy)]
pub enum ApiError {
    /// The request does not carry a valid credential; the text says why.
    Unauthorized(&'static str),
    /// Something failed inside the server.
    Internal,
}

impl ApiError {
    /// The HTTP status code and the message of the error response.
    pub fn status_and_message(&self) -> (r: (u16, &'static str))
        ensures
            match *self {
                ApiError::Unauthorized(m) => r.0 == 401 && r.1@ == m@,
                ApiError::Internal => r.0 == 500 && r.1@ == "内部错误"@,
            },
    {
        match self {
            ApiError::Unauthorized(m) => (401, *m),
            ApiError::Internal => (500, "内部错误"),
        }
    }
}

/// The token of an `Authorization: Bearer <token>` header, given the
/// header's text (`None` when the header is missing or not text).
pub fn bearer_token(header: Option<&str>) -> (r: Result<&str, ApiError>)
    ensures
        match header {
            None => r matches Err(ApiError::Unauthorized(m)) && m@ == "缺少 Authorization header"@,
            Some(h) => if "Bearer "@.len() <= h@.len() && h@.subrange(0, "Bearer "@.len() as int)
                == "Bearer "@ {
                r matches Ok(t) && t@ == h@.subrange("Bearer "@.len() as int, h@.len() as int)
            } else {
                r matches Err(ApiError::Unauthorized(m)) && m@
                    == "Authorization 格式应为: Bearer <token>"@
            },
        },
{
    match header {
        None => Err(ApiError::Unauthorized("缺少 Authorization header")),
        Some(h) => match strip_prefix(h, "Bearer ") {
            Some(t) => Ok(t),
            None => Err(ApiError::Unauthorized("Authorization 格式应为: Bearer <token>")),
        },
    }
}

/// A header `Bearer <t>` yields the token `t`.
pub proof fn lemma_bearer_round_trip(t: Seq<char>)
    ensures
        ("Bearer "@ + t).subrange(0, "Bearer "@.len() as int) == "Bearer "@,
        ("Bearer "@ + t).subrange("Bearer "@.len() as int, ("Bearer "@ + t).len() as int) == t,
{
    assert(("Bearer "@ + t).subrange(0, "Bearer "@.len() as int) =~= "Bearer "@);
    assert(("Bearer "@ + t).subrange("Bearer "@.len() as int, ("Bearer "@ + t).len() as int) =~= t);
}

/// What a session token asserts: who it is for and until when it is valid
/// (seconds since the Unix epoch).
pub struct Claims {
    pub sub: String,
    pub exp: usize,
}

/// The claims issued at login at time `now` (seconds since the Unix epoch):
/// the demo user, valid for one hour.
pub fn login_claims(now: i64) -> (c: Claims)
    requires
        0 <= now,
        now + 3600 <= usize::MAX,
    ensures
        c.sub@ == "user123"@,
        c.exp == now + 3600,
{
    Claims { sub: "user123".to_owned(), exp: now as usize + 3600 }
}

/// The claims issued at login at time `now` (seconds since the Unix epoch),
/// or `None` when the expiry, one hour later, does not fit in a `usize`.
pub fn claims_at(now: i64) -> (r: Option<Claims>)
    requires
        0 <= now,
    ensures
        r is None <==> now + 3600 > usize::MAX,
        r matches Some(c) ==> c.sub@ == "user123"@ && c.exp == now + 3600,
{
    if now as u64 <= usize::MAX as u64 - 3600 {
        Some(login_claims(now))
    } else {
        None
    }
}

/// Reads the clock and issues the login claims at the second read
/// (`claims_at`), handing back the reading with the claims. `None` overall
/// when the clock cannot be read as a UTC time.
pub fn claims_with_reading() -> (r: Option<(ClockReading, Option<Claims>)>)
    ensures
        r matches Some(p) ==> (p.1 is None <==> p.0.instant() / 1_000_000_000 + 3600
            > usize::MAX),
        r matches Some(p) ==> (p.1 matches Some(c) ==> c.sub@ == "user123"@ && c.exp
            == p.0.instant() / 1_000_000_000 + 3600),
{
    let reading = match read_clock() {
        Some(c) => c,
        None => return None,
    };
    let now = reading.secs_since_epoch();
    let claims = claims_at(now);
    Some((reading, claims))
}

/// The claims issued at login, at the current time (`claims_at`). `None` when
/// the clock cannot be read as a UTC time, or when the expiry does not fit in
/// a `usize`, which cannot happen on 64-bit targets.
pub fn claims_now() -> (r: Option<Claims>)
    ensures
        r matches Some(c) ==> c.sub@ == "user123"@ && 3600 <= c.exp <= 8210266876799 + 3600,
{
    match claims_with_reading() {
        Some((reading, claims)) => {
            let _now = reading.secs_since_epoch();
            claims
        },
        None => None,
    }
}

} // verus!
