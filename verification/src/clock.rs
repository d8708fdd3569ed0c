//! UTC timestamps as seconds since the Unix epoch, and their rendering.
//!
//! All stored and compared times use this one representation, so expiration
//! arithmetic is plain integer arithmetic.

use vstd::prelude::*;

verus! {

/// The largest timestamp the library works with: 9999-12-31 23:59:59 UTC.
pub const MAX_TIMESTAMP: i64 = 253402300799;

/// The text chrono renders for a UTC timestamp, such as
/// "2015-05-15 00:00:00". Determined by the timestamp alone.
pub uninterp spec fn utc_string_of(secs: int) -> Seq<char>;

/// Relies on chrono::DateTime::from_timestamp, which returns Some for any
/// in-range number of seconds, and on the Display form of the naive UTC
/// date-time it carries, a function of the timestamp alone.
#[verifier::external_body]
pub fn format_utc(secs: i64) -> (r: String)
    requires
        0 <= secs <= MAX_TIMESTAMP,
    ensures
        r@ == utc_string_of(secs as int),
{
    let dt = chrono::DateTime::<chrono::Utc>::from_timestamp(secs, 0)
        .expect("timestamp within the supported range");
    dt.naive_utc().to_string()
}

/// Relies on chrono::Utc::now: the current UTC time in whole seconds since
/// the Unix epoch. Nothing is assumed of the machine's clock.
#[verifier::external_body]
fn now_utc_seconds() -> (r: i64)
{
    chrono::Utc::now().timestamp()
}

/// The current UTC time, clamped into the supported timestamp range.
pub fn current_time() -> (r: i64)
    ensures
        0 <= r <= MAX_TIMESTAMP,
{
    let t = now_utc_seconds();
    if t < 0 {
        0
    } else if t > MAX_TIMESTAMP {
        MAX_TIMESTAMP
    } else {
        t
    }
}

} // verus!
