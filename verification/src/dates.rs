//! Checks on the issue and expiry dates of a ticket.

use vstd::prelude::*;

verus! {

/// The system clock's time, carried through as an opaque value.
#[verifier::external_type_specification]
#[verifier::external_body]
pub struct ExSystemTime(std::time::SystemTime);

/// Reads the system clock (`SystemTime::now`).
#[verifier::external_body]
fn system_time_now() -> std::time::SystemTime {
    std::time::SystemTime::now()
}

/// The time elapsed from the UNIX epoch to `t`, or `None` when `t` is
/// earlier than the epoch (`SystemTime::duration_since`).
#[verifier::external_body]
fn duration_since_unix_epoch(t: &std::time::SystemTime) -> Option<core::time::Duration> {
    t.duration_since(std::time::UNIX_EPOCH).ok()
}

/// The whole seconds of `d` (`Duration::as_secs`).
#[verifier::external_body]
fn duration_as_secs(d: &core::time::Duration) -> u64 {
    d.as_secs()
}

pub const ERR_INVALID_DATE: &'static str = "Invalid issued or expiration date";
pub const ERR_EXPIRES_BEFORE_ISSUED: &'static str = "Expiration date is before issued date";
pub const ERR_CLOCK_BEFORE_EPOCH: &'static str = "System time before UNIX EPOCH";
pub const ERR_ISSUED_IN_FUTURE: &'static str = "Issued date is in the future";
pub const ERR_TOO_FAR_IN_FUTURE: &'static str = "Issued or expiration date is too far in the future";

/// The outcome of checking `issued_at` and `expires_at` (milliseconds) at
/// the time `now` (seconds since the UNIX epoch, `None` if the clock reads
/// earlier than the epoch).
pub open spec fn spec_check_dates(issued_at: u64, expires_at: u64, now: Option<u64>) -> Result<(), &'static str> {
    if issued_at == 0 || expires_at == 0 {
        Err(ERR_INVALID_DATE)
    } else if expires_at <= issued_at {
        Err(ERR_EXPIRES_BEFORE_ISSUED)
    } else {
        match now {
            None => Err(ERR_CLOCK_BEFORE_EPOCH),
            Some(secs) => if issued_at > secs * 1000 + 300 * 1000 {
                Err(ERR_ISSUED_IN_FUTURE)
            } else if expires_at > secs * 1000 + 31_536_000 * 1000 {
                Err(ERR_TOO_FAR_IN_FUTURE)
            } else {
                Ok(())
            },
        }
    }
}

/// The current time in seconds since the UNIX epoch, `None` if the clock
/// reads earlier than the epoch.
pub fn current_unix_time() -> (r: Option<u64>) {
    let t = system_time_now();
    match duration_since_unix_epoch(&t) {
        Some(d) => Some(duration_as_secs(&d)),
        None => None,
    }
}

/// Make sure `issued_at` and `expires_at` make sense at the time `now`.
///
/// - `issued_at` and `expires_at` must be non-zero.
/// - `expires_at` must be after `issued_at`.
/// - `issued_at` must not be in the future (with a 5 minute leeway).
/// - `expires_at` must not be more than 1 year in the future.
///
/// The dates are in milliseconds, `now` in seconds.
pub fn validate_dates_at(issued_at: u64, expires_at: u64, now: Option<u64>) -> (r: Result<(), &'static str>)
    ensures
        r == spec_check_dates(issued_at, expires_at, now),
{
    if issued_at == 0 || expires_at == 0 {
        return Err(ERR_INVALID_DATE);
    }
    if expires_at <= issued_at {
        return Err(ERR_EXPIRES_BEFORE_ISSUED);
    }
    let secs = match now {
        Some(secs) => secs,
        None => return Err(ERR_CLOCK_BEFORE_EPOCH),
    };
    let now_ms = secs as u128 * 1000;
    if issued_at as u128 > now_ms + 300 * 1000 {
        return Err(ERR_ISSUED_IN_FUTURE);
    }
    if expires_at as u128 > now_ms + 31_536_000 * 1000 {
        return Err(ERR_TOO_FAR_IN_FUTURE);
    }
    Ok(())
}

/// Make sure `issued_at` and `expires_at` make sense at the current time.
pub fn validate_dates(issued_at: u64, expires_at: u64) -> (r: Result<(), &'static str>)
    ensures
        exists|now: Option<u64>| r == spec_check_dates(issued_at, expires_at, now),
{
    let now = current_unix_time();
    validate_dates_at(issued_at, expires_at, now)
}

} // verus!
