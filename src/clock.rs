//! Wall-clock time.
use vstd::prelude::*;
use std::time::{Duration, SystemTime, UNIX_EPOCH};

verus! {

#[verifier::external_type_specification]
#[verifier::external_body]
pub struct ExSystemTime(SystemTime);

/// Relies on `SystemTime::now`: the current wall-clock time; nothing is
/// known of its value.
#[verifier::external_body]
fn system_now() -> SystemTime {
    SystemTime::now()
}

/// Relies on `SystemTime::duration_since` with `UNIX_EPOCH`: the time since
/// the epoch, or `None` where `t` is before it.
#[verifier::external_body]
fn since_epoch(t: &SystemTime) -> Option<Duration> {
    t.duration_since(UNIX_EPOCH).ok()
}

/// Relies on `Duration::as_millis`: whole milliseconds of `d`.
#[verifier::external_body]
fn whole_millis(d: &Duration) -> u128 {
    d.as_millis()
}

/// A clock reading in milliseconds since the Unix epoch, cut to its low 64
/// bits; 0 where the clock is before the epoch (`None`).
pub fn epoch_millis_to_u64(offset: Option<u128>) -> (r: u64)
    ensures
        r as int == (match offset {
            Some(m) => m as int % 0x1_0000_0000_0000_0000,
            None => 0,
        }),
{
    match offset {
        Some(m) => (m % 0x1_0000_0000_0000_0000u128) as u64,
        None => 0,
    }
}

/// Milliseconds since the Unix epoch by the wall clock, cut to 64 bits; 0
/// where the clock is before the epoch.
pub fn now_ms() -> u64 {
    let offset = match since_epoch(&system_now()) {
        Some(d) => Some(whole_millis(&d)),
        None => None,
    };
    epoch_millis_to_u64(offset)
}

} // verus!
