//! The server's clocks.
use vstd::prelude::*;

verus! {

/// `std::time::Instant`, a reading of the monotonic clock.
#[verifier::external_type_specification]
#[verifier::external_body]
pub struct ExInstant(std::time::Instant);

/// `Instant::now`: nothing is known of the reading.
#[verifier::external_body]
pub(crate) fn clock_origin() -> (r: std::time::Instant) {
    std::time::Instant::now()
}

/// `Instant::elapsed`, in nanoseconds: nothing is known of the reading.
#[verifier::external_body]
pub(crate) fn nanos_since(origin: &std::time::Instant) -> (r: u64) {
    origin.elapsed().as_nanos() as u64
}

/// `SystemTime::elapsed` of the Unix epoch, in nanoseconds: nothing is known of the reading.
/// A clock set before the epoch reads as the epoch itself.
#[verifier::external_body]
pub(crate) fn unix_nanos() -> (r: u64) {
    std::time::SystemTime::UNIX_EPOCH.elapsed().unwrap_or_default().as_nanos() as u64
}

/// Milliseconds since the Unix epoch of a reading in nanoseconds.
pub open spec fn millis(nanos: u64) -> u64 {
    nanos / 1_000_000
}

/// Milliseconds since the Unix epoch of a reading in nanoseconds.
pub fn millis_of(nanos: u64) -> (r: u64)
    ensures
        r == millis(nanos),
{
    nanos / 1_000_000
}

/// Milliseconds since the Unix epoch, by the clock as it stands. Which reading that is, nothing
/// says; what becomes of it is [`millis_of`].
pub fn now_ms() -> (r: u64)
    ensures
        exists|nanos: u64| r == #[trigger] millis(nanos),
{
    millis_of(unix_nanos())
}

/// A reading of both clocks.
#[derive(Debug, Clone, Copy)]
pub struct Clock {
    /// Nanoseconds on the router's monotonic clock.
    pub mono: u64,
    /// Nanoseconds since the Unix epoch.
    pub unix: u64,
}

/// The time in UTC that lies so many seconds and nanoseconds after the Unix epoch, as RFC 3339
/// writes it.
pub uninterp spec fn rfc3339(secs: i64, nanos: u32) -> Seq<char>;

/// `DateTime::from_timestamp` of chrono with `DateTime::to_rfc3339`, by the name of their
/// result. A time that chrono does not know reads as the Unix epoch.
#[verifier::external_body]
fn rfc3339_text(secs: i64, nanos: u32) -> (r: String)
    ensures
        r@ == rfc3339(secs, nanos),
{
    chrono::DateTime::from_timestamp(secs, nanos).unwrap_or_default().to_rfc3339()
}

/// What the wall clock showed, in nanoseconds since the Unix epoch, when the monotonic clock
/// showed `created`; never before the epoch.
pub open spec fn wall_nanos(created: u64, now: Clock) -> int {
    let elapsed = if now.mono >= created {
        now.mono - created
    } else {
        0
    };
    if now.unix >= elapsed {
        now.unix - elapsed
    } else {
        0
    }
}

/// The time at which the monotonic clock showed `created`, to the second.
pub open spec fn iso_of_instant(created: u64, now: Clock) -> Seq<char> {
    rfc3339((wall_nanos(created, now) / 1_000_000_000) as i64, 0)
}

/// The time at which the monotonic clock showed `created`, to the second.
pub fn instant_to_iso(created: u64, now: Clock) -> (r: String)
    ensures
        r@ == iso_of_instant(created, now),
{
    let elapsed: u64 = if now.mono >= created {
        now.mono - created
    } else {
        0
    };
    let nanos: u64 = if now.unix >= elapsed {
        now.unix - elapsed
    } else {
        0
    };
    rfc3339_text((nanos / 1_000_000_000) as i64, 0)
}

/// A time in nanoseconds since the Unix epoch.
pub open spec fn iso_of_unix(nanos: u64) -> Seq<char> {
    rfc3339((nanos / 1_000_000_000) as i64, (nanos % 1_000_000_000) as u32)
}

/// A time in nanoseconds since the Unix epoch.
pub fn unix_to_iso(nanos: u64) -> (r: String)
    ensures
        r@ == iso_of_unix(nanos),
{
    rfc3339_text((nanos / 1_000_000_000) as i64, (nanos % 1_000_000_000) as u32)
}

} // verus!
