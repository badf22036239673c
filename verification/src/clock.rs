//! The host clock.

use vstd::prelude::*;

verus! {

/// [`std::time::SystemTime`], an instant of the host clock.
#[verifier::external_type_specification]
#[verifier::external_body]
pub struct ExSystemTime(std::time::SystemTime);

/// [`std::time::SystemTimeError`], raised by a clock before the epoch.
#[verifier::external_type_specification]
#[verifier::external_body]
pub struct ExSystemTimeError(std::time::SystemTimeError);

/// `SystemTime::now` reads the host clock; nothing is claimed of the instant.
pub assume_specification[ std::time::SystemTime::now ]() -> std::time::SystemTime;

/// `Duration::as_millis` gives a length of time in whole milliseconds; nothing is
/// claimed of the number.
pub assume_specification[ std::time::Duration::as_millis ](elapsed: &std::time::Duration) -> u128;

/// Calls `SystemTime::duration_since` with the Unix epoch. Whether the instant
/// lies after the epoch, and by how much, depends on the clock.
#[verifier::external_body]
fn since_epoch(instant: std::time::SystemTime) -> std::result::Result<
    std::time::Duration,
    std::time::SystemTimeError,
> {
    instant.duration_since(std::time::UNIX_EPOCH)
}

/// Milliseconds since the epoch, as far as 64 bits hold them: zero for a clock
/// before the epoch, the largest number for one too far after it.
pub open spec fn epoch_millis(elapsed: Option<u128>) -> u64 {
    match elapsed {
        Some(ms) => if ms <= u64::MAX {
            ms as u64
        } else {
            u64::MAX
        },
        None => 0,
    }
}

/// The executable form of [`epoch_millis`].
pub fn clamp_millis(elapsed: Option<u128>) -> (r: u64)
    ensures
        r == epoch_millis(elapsed),
{
    match elapsed {
        Some(ms) => {
            if ms <= u64::MAX as u128 {
                ms as u64
            } else {
                u64::MAX
            }
        }
        None => 0,
    }
}

/// Milliseconds since the Unix epoch, or 0 if the clock is before it.
///
/// The reading depends on the clock alone; [`clamp_millis`] says how it is cut to
/// 64 bits.
pub fn now_ms() -> u64 {
    let elapsed: Option<u128> = match since_epoch(std::time::SystemTime::now()) {
        Ok(duration) => Some(duration.as_millis()),
        Err(_) => None,
    };
    clamp_millis(elapsed)
}

} // verus!
