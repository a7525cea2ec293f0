//! The system clock, as the store reads it to stamp audit-log entries.

use std::time::{Duration, SystemTime, SystemTimeError};
use vstd::prelude::*;

verus! {

#[verifier::external_type_specification]
#[verifier::external_body]
pub struct ExSystemTime(std::time::SystemTime);

#[verifier::external_type_specification]
#[verifier::external_body]
pub struct ExSystemTimeError(std::time::SystemTimeError);

/// Calls `SystemTime::now`. The result is whatever the clock reads, so
/// nothing is claimed of it.
#[verifier::external_body]
fn system_now() -> SystemTime {
    SystemTime::now()
}

/// Calls `SystemTime::duration_since` with `UNIX_EPOCH`: the time elapsed
/// since the epoch, or an error when the clock reads earlier. The value is
/// opaque to the proofs, so nothing is claimed of it.
#[verifier::external_body]
fn since_epoch(t: &SystemTime) -> Result<Duration, SystemTimeError> {
    t.duration_since(std::time::UNIX_EPOCH)
}

/// The whole seconds of a duration, as `Duration::as_secs` gives them.
pub uninterp spec fn seconds_of(d: Duration) -> u64;

/// The whole microseconds of a duration, as `Duration::as_micros` gives them.
pub uninterp spec fn micros_of(d: Duration) -> u128;

/// Calls `Duration::as_secs`: the whole seconds of the duration, named.
#[verifier::external_body]
fn whole_seconds(d: &Duration) -> (r: u64)
    ensures
        r == seconds_of(*d),
{
    d.as_secs()
}

/// Calls `Duration::as_micros`: the whole microseconds of the duration,
/// named. Also claimed, as the documentation of `as_micros` (all whole
/// microseconds) and `as_secs` (all whole seconds) gives it: dividing the
/// microseconds by a million gives the whole seconds.
#[verifier::external_body]
fn whole_micros(d: &Duration) -> (r: u128)
    ensures
        r == micros_of(*d),
        r / 1_000_000 == seconds_of(*d) as u128,
{
    d.as_micros()
}

/// The timestamp for a reading of the clock: seconds since the epoch as
/// `spec` names them, or 0 when the clock read earlier than the epoch.
pub open spec fn timestamp_for(since: Result<Duration, SystemTimeError>) -> u64 {
    match since {
        Ok(d) => seconds_of(d),
        Err(_) => 0,
    }
}

/// The log id for a reading of the clock: the microseconds since the epoch
/// cut to their low 64 bits, or 0 when the clock read earlier than the epoch.
pub open spec fn log_id_for(since: Result<Duration, SystemTimeError>) -> u64 {
    match since {
        Ok(d) => micros_of(d) as u64,
        Err(_) => 0,
    }
}

/// The whole seconds elapsed since the epoch, or 0 when the clock read
/// earlier than it.
pub fn seconds_or_zero(since: Result<Duration, SystemTimeError>) -> (r: u64)
    ensures
        r == timestamp_for(since),
{
    match since {
        Ok(d) => whole_seconds(&d),
        Err(_) => 0,
    }
}

/// The microseconds elapsed since the epoch, cut to their low 64 bits, or 0
/// when the clock read earlier than it.
///
/// For one reading whose microseconds fit in 64 bits, the log id divided by a
/// million is the timestamp of that reading.
pub fn micros_or_zero(since: Result<Duration, SystemTimeError>) -> (r: u64)
    ensures
        r == log_id_for(since),
        (since matches Ok(d) ==> micros_of(d) <= u64::MAX) ==> r / 1_000_000 == timestamp_for(since),
{
    match since {
        Ok(d) => {
            let micros = whole_micros(&d);
            micros as u64
        },
        Err(_) => 0,
    }
}

/// Seconds since the Unix epoch, or 0 when the clock reads earlier than it.
/// What the clock reads is not known to the proofs; what is made of the
/// reading is `seconds_or_zero`.
pub fn current_timestamp() -> (r: u64)
    ensures
        exists|since: Result<Duration, SystemTimeError>| #[trigger] timestamp_for(since) == r,
{
    let now = system_now();
    seconds_or_zero(since_epoch(&now))
}

/// A log id: the microseconds since the Unix epoch, cut to their low 64 bits,
/// or 0 when the clock reads earlier than the epoch. Two calls in the same
/// microsecond give the same id. What the clock reads is not known to the
/// proofs; what is made of the reading is `micros_or_zero`.
pub fn next_log_id() -> (r: u64)
    ensures
        exists|since: Result<Duration, SystemTimeError>| #[trigger] log_id_for(since) == r,
{
    let now = system_now();
    micros_or_zero(since_epoch(&now))
}

} // verus!
