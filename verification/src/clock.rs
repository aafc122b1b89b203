use vstd::prelude::*;

verus! {

/// The last instant that chrono's `DateTime<Utc>` reaches by reading the clock
/// or adding a duration: 262142-12-31T23:59:59.999999999 UTC, in nanoseconds
/// since the Unix epoch.
pub open spec fn last_instant() -> int {
    8210266876799999999999int
}

/// The system clock: `std::time::SystemTime::now()` measured with
/// `duration_since(UNIX_EPOCH)`, as whole seconds and the nanoseconds past
/// them (`Duration::as_secs`, `Duration::subsec_nanos`). `None` when the clock
/// reads before the epoch (the `Err` of `duration_since`). The nanoseconds of
/// a `Duration` are below one second; which instant comes back is not stated:
/// it is the time.
#[verifier::external_body]
fn system_time_since_epoch() -> (r: Option<(u64, u32)>)
    ensures
        r matches Some(p) ==> p.1 < 1_000_000_000,
{
    match std::time::SystemTime::now().duration_since(std::time::UNIX_EPOCH) {
        Ok(d) => Some((d.as_secs(), d.subsec_nanos())),
        Err(_) => None,
    }
}

/// chrono's `DateTime::<Utc>::from_timestamp(secs, nanos)`, read back as
/// `(timestamp(), timestamp_subsec_nanos())`. For a non-negative `secs` and
/// `nanos` below one second, chrono's source gives `Some` exactly when the
/// date is not past its last date, 262142-12-31 (second 8210266876799 since
/// the epoch), and the instant reads back as the arguments.
#[verifier::external_body]
fn utc_from_timestamp(secs: i64, nanos: u32) -> (r: Option<(i64, u32)>)
    requires
        0 <= secs,
        nanos < 1_000_000_000,
    ensures
        r is Some <==> secs <= 8210266876799,
        r matches Some(p) ==> p.0 == secs && p.1 == nanos,
{
    match chrono::DateTime::from_timestamp(secs, nanos) {
        Some(t) => Some((t.timestamp(), t.timestamp_subsec_nanos())),
        None => None,
    }
}

/// A reading of the clock as a UTC time: whole seconds since the Unix epoch
/// and the nanoseconds past them. Only `read_clock` makes one, from what the
/// clock gave, so a reading held by a caller is one the clock gave.
pub struct ClockReading {
    secs: i64,
    nanos: u32,
}

impl ClockReading {
    /// A reading lies between the epoch and the last date chrono represents,
    /// with fewer nanoseconds than make a second.
    #[verifier::type_invariant]
    spec fn inv(self) -> bool {
        &&& 0 <= self.secs <= 8210266876799
        &&& self.nanos < 1_000_000_000
    }

    /// The instant read, in nanoseconds since the Unix epoch.
    pub closed spec fn instant(self) -> int {
        self.secs * 1_000_000_000 + self.nanos
    }

    /// The instant read, in nanoseconds since the Unix epoch.
    pub fn nanos_since_epoch(&self) -> (t: i128)
        ensures
            t == self.instant(),
            0 <= t <= last_instant(),
    {
        proof {
            use_type_invariant(self);
        }
        self.secs as i128 * 1_000_000_000 + self.nanos as i128
    }

    /// The instant read, in whole seconds since the Unix epoch.
    pub fn secs_since_epoch(&self) -> (s: i64)
        ensures
            s == self.instant() / 1_000_000_000,
            0 <= s <= 8210266876799,
    {
        proof {
            use_type_invariant(self);
        }
        self.secs
    }
}

/// Reads the clock as chrono's `Utc::now` does. `None` when the system clock
/// reads before the epoch or past the last date chrono represents, where
/// `Utc::now` would panic.
pub fn read_clock() -> (r: Option<ClockReading>)
{
    let (secs, nanos) = match system_time_since_epoch() {
        Some(p) => p,
        None => return None,
    };
    if secs > i64::MAX as u64 {
        return None;
    }
    match utc_from_timestamp(secs as i64, nanos) {
        Some((s, n)) => Some(ClockReading { secs: s, nanos: n }),
        None => None,
    }
}

/// The current UTC time in nanoseconds since the Unix epoch, as chrono's
/// `Utc::now` gives it. `None` when the system clock reads before the epoch or
/// past the last date chrono represents, where `Utc::now` would panic.
pub(crate) fn now_nanos() -> (r: Option<i128>)
    ensures
        r matches Some(t) ==> 0 <= t <= last_instant(),
{
    match read_clock() {
        Some(c) => Some(c.nanos_since_epoch()),
        None => None,
    }
}

} // verus!
