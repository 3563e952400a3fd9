//! The wall clock, in milliseconds since 1970.

use std::time::{Duration, SystemTime, SystemTimeError};
use vstd::prelude::*;

verus! {

/// `std::time::SystemTime`, carried from one std call to the next.
#[verifier::external_type_specification]
#[verifier::external_body]
pub struct ExSystemTime(SystemTime);

/// `std::time::SystemTimeError`, which is never looked into.
#[verifier::external_type_specification]
#[verifier::external_body]
pub struct ExSystemTimeError(SystemTimeError);

/// `SystemTime::now` reads the system clock. Nothing is claimed of what it
/// shows.
pub assume_specification[ SystemTime::now ]() -> SystemTime
;

/// `SystemTime::duration_since` gives the time from `earlier` on, or an error
/// where `earlier` is the later one. Both times are opaque here, so nothing is
/// claimed of the result.
pub assume_specification[ SystemTime::duration_since ](
    this: &SystemTime,
    earlier: SystemTime,
) -> Result<Duration, SystemTimeError>
;

/// `Duration::as_millis` gives the whole milliseconds of a duration. A duration
/// holds at most `u64::MAX` seconds and less than one second more.
pub assume_specification[ Duration::as_millis ](this: &Duration) -> (millis: u128)
    ensures
        millis <= u64::MAX * 1000 + 999,
;

/// `std::time::UNIX_EPOCH`, the start of 1970.
#[verifier::external_body]
fn unix_epoch() -> SystemTime {
    std::time::UNIX_EPOCH
}

/// The time stamp for a reading of the clock.
pub open spec fn stamp_of(since: Option<u128>) -> i64 {
    match since {
        None => 0,
        Some(millis) => millis as i64,
    }
}

/// The time stamp for `since` milliseconds after the start of 1970, and zero for
/// a clock that stands before it. The low 64 bits count, so that up to
/// `i64::MAX` the stamp is `since` itself.
pub fn epoch_ms(since: Option<u128>) -> (stamp: i64)
    ensures
        stamp == stamp_of(since),
        match since {
            None => stamp == 0,
            Some(millis) => {
                &&& stamp == millis as i64
                &&& millis <= i64::MAX ==> stamp == millis
            },
        },
{
    match since {
        None => 0,
        Some(millis) => {
            #[verifier::truncate]
            let stamp: i64 = millis as i64;
            stamp
        },
    }
}

/// The time stamp of now. What it is depends on the clock alone.
pub fn now_ms() -> i64 {
    match SystemTime::now().duration_since(unix_epoch()) {
        Ok(since) => epoch_ms(Some(since.as_millis())),
        Err(_) => epoch_ms(None),
    }
}

/// A stamp counts milliseconds: up to `i64::MAX` it is the reading itself, so
/// that two stamps are as far apart as their readings; beyond, it differs from
/// the reading by a multiple of two to the power of 64.
pub proof fn law_stamps_count_milliseconds(earlier: u128, later: u128)
    ensures
        stamp_of(None) == 0,
        stamp_of(Some(0)) == 0,
        earlier <= later <= i64::MAX ==> stamp_of(Some(later)) - stamp_of(Some(earlier)) == later
            - earlier,
        (later - stamp_of(Some(later))) % 0x1_0000_0000_0000_0000 == 0,
{
    assert((later - (later as i64)) % 0x1_0000_0000_0000_0000 == 0) by (bit_vector);
}

} // verus!
