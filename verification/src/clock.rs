//! The wall clock, read as whole seconds or milliseconds since the Unix epoch.

use vstd::prelude::*;
use std::time::{Duration, SystemTime, SystemTimeError};

verus! {

/// The wall clock's reading, as `std::time::SystemTime`; an opaque value.
#[verifier::external_type_specification]
#[verifier::external_body]
pub struct ExSystemTime(SystemTime);

/// The error `SystemTime::duration_since` returns when the clock reads
/// earlier than the reference point.
#[verifier::external_type_specification]
#[verifier::external_body]
pub struct ExSystemTimeError(SystemTimeError);

/// Calls `SystemTime::now`. What it returns depends on the machine's clock,
/// so nothing is said of it.
#[verifier::external_body]
pub(crate) fn system_time_now() -> (t: SystemTime) {
    SystemTime::now()
}

/// Calls `SystemTime::duration_since(UNIX_EPOCH)`: the time elapsed since
/// the Unix epoch, or an error when the clock reads earlier than it. Which
/// of the two comes back depends on the clock, so nothing is said of it.
#[verifier::external_body]
pub(crate) fn elapsed_since_unix_epoch(t: &SystemTime) -> (r: Result<Duration, SystemTimeError>) {
    t.duration_since(std::time::UNIX_EPOCH)
}

/// Calls `Duration::as_secs`. `Duration` is opaque here, so nothing is said
/// of the number it returns.
#[verifier::external_body]
pub(crate) fn duration_whole_secs(d: &Duration) -> (s: u64) {
    d.as_secs()
}

/// Calls `Duration::subsec_millis`: the fractional part of the duration in
/// whole milliseconds, which the documentation says is always below 1000.
#[verifier::external_body]
pub(crate) fn duration_subsec_millis(d: &Duration) -> (ms: u32)
    ensures
        ms < 1000,
{
    d.subsec_millis()
}

/// The timestamp a node records for a clock reading of `elapsed` whole
/// seconds since the Unix epoch (`None`: the clock reads before the epoch).
pub fn epoch_secs_or_zero(elapsed: Option<u64>) -> (s: u64)
    ensures
        s == match elapsed {
            Some(secs) => secs,
            None => 0,
        },
{
    match elapsed {
        Some(secs) => secs,
        None => 0,
    }
}

/// The whole milliseconds in `secs` seconds and `subsec_millis`
/// milliseconds, capped at `u64::MAX`.
pub open spec fn total_millis(secs: u64, subsec_millis: u32) -> u64 {
    if secs * 1000 + subsec_millis <= u64::MAX {
        (secs * 1000 + subsec_millis) as u64
    } else {
        u64::MAX
    }
}

/// The timestamp a node records for a clock reading of `elapsed` (whole
/// seconds and the milliseconds past them) since the Unix epoch (`None`:
/// the clock reads before the epoch), in milliseconds; a reading beyond
/// `u64::MAX` milliseconds is capped there.
pub fn epoch_millis_or_zero(elapsed: Option<(u64, u32)>) -> (ms: u64)
    ensures
        ms == match elapsed {
            Some((secs, subsec_millis)) => total_millis(secs, subsec_millis),
            None => 0,
        },
{
    match elapsed {
        Some((secs, subsec_millis)) => {
            let total: u128 = (secs as u128) * 1000 + (subsec_millis as u128);
            if total <= u64::MAX as u128 {
                total as u64
            } else {
                u64::MAX
            }
        },
        None => 0,
    }
}

/// Whole seconds elapsed since the Unix epoch, or 0 when the clock reads
/// earlier than the epoch.
pub fn secs_now() -> (s: u64) {
    let now = system_time_now();
    let elapsed = match elapsed_since_unix_epoch(&now) {
        Ok(d) => Some(duration_whole_secs(&d)),
        Err(_) => None,
    };
    epoch_secs_or_zero(elapsed)
}

} // verus!
