//! The wall clock in milliseconds.

use std::time::{Duration, SystemTime, SystemTimeError, UNIX_EPOCH};

use vstd::prelude::*;

verus! {

#[verifier::external_type_specification]
#[verifier::external_body]
pub struct ExSystemTime(std::time::SystemTime);

#[verifier::external_type_specification]
#[verifier::external_body]
pub struct ExSystemTimeError(std::time::SystemTimeError);

/// Calls [`SystemTime::now`]. Nothing is claimed of the result: it is whatever the
/// system clock shows, and two calls may give times in either order.
#[verifier::external_body]
pub(crate) fn system_time() -> (t: SystemTime) {
    SystemTime::now()
}

/// How long a duration is, in nanoseconds.
pub uninterp spec fn duration_nanos(d: Duration) -> nat;

/// How far a time lies after the Unix epoch, in nanoseconds; negative before it.
pub uninterp spec fn nanos_since_epoch(t: SystemTime) -> int;

/// Calls [`SystemTime::duration_since`] with the Unix epoch: the time elapsed from the
/// epoch to `t`, and an error exactly when `t` lies before the epoch. How far before,
/// which the error also tells, is left unsaid.
#[verifier::external_body]
pub(crate) fn since_epoch(t: SystemTime) -> (r: Result<Duration, SystemTimeError>)
    ensures
        match r {
            Ok(d) => nanos_since_epoch(t) == duration_nanos(d),
            Err(_) => nanos_since_epoch(t) < 0,
        },
{
    t.duration_since(UNIX_EPOCH)
}

/// Calls [`Duration::as_millis`]: the whole milliseconds in a duration.
#[verifier::external_body]
pub(crate) fn whole_millis(d: &Duration) -> (ms: u128)
    ensures
        ms == duration_nanos(*d) / 1_000_000,
{
    d.as_millis()
}

/// What the manager takes the time to be when the clock shows `t`: the whole
/// milliseconds since the Unix epoch, in 64 bits, and zero before the epoch.
pub open spec fn reading_of(t: SystemTime) -> nat {
    if nanos_since_epoch(t) < 0 {
        0
    } else {
        ((nanos_since_epoch(t) / 1_000_000) % 0x1_0000_0000_0000_0000) as nat
    }
}

/// The milliseconds since the Unix epoch as the manager counts them: the low 64 bits
/// of the elapsed milliseconds, and zero when the clock stands before the epoch.
pub open spec fn epoch_millis_of(elapsed: Option<u128>) -> u64 {
    match elapsed {
        Some(ms) => (ms % 0x1_0000_0000_0000_0000u128) as u64,
        None => 0,
    }
}

/// Computes [`epoch_millis_of`].
pub fn epoch_millis(elapsed: Option<u128>) -> (ms: u64)
    ensures
        ms == epoch_millis_of(elapsed),
        elapsed matches Some(n) ==> ms == n % 18_446_744_073_709_551_616,
        elapsed is None ==> ms == 0,
{
    match elapsed {
        Some(ms) => (ms % 0x1_0000_0000_0000_0000u128) as u64,
        None => 0,
    }
}

} // verus!
