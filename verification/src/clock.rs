//! The clock that rows are stamped with.

use vstd::prelude::*;

verus! {

/// A time that the system's clock shows.
#[verifier::external_type_specification]
#[verifier::external_body]
pub struct ExSystemTime(std::time::SystemTime);

/// `time` is a time that the system's clock showed.
pub uninterp spec fn clock_shows(time: std::time::SystemTime) -> bool;

/// How long after the epoch `time` is; none for a time before it.
pub uninterp spec fn since_epoch(time: std::time::SystemTime) -> Option<std::time::Duration>;

/// The whole seconds of `duration`.
pub uninterp spec fn seconds_of(duration: std::time::Duration) -> u64;

/// `std::time::SystemTime::now`. The contract claims only that the clock showed
/// this time; nothing is said of which it is.
#[verifier::external_body]
fn now() -> (res: std::time::SystemTime)
    ensures
        clock_shows(res),
{
    std::time::SystemTime::now()
}

/// `std::time::SystemTime::duration_since`, against the epoch. The contract
/// claims that the result depends on the time alone.
#[verifier::external_body]
fn duration_since_epoch(time: std::time::SystemTime) -> (res: Option<std::time::Duration>)
    ensures
        res == since_epoch(time),
{
    time.duration_since(std::time::UNIX_EPOCH).ok()
}

/// `std::time::Duration::as_secs`. The contract claims that the result depends
/// on the duration alone.
#[verifier::external_body]
fn whole_seconds(duration: std::time::Duration) -> (res: u64)
    ensures
        res == seconds_of(duration),
{
    duration.as_secs()
}

/// The reading of a clock that shows `time`: whole seconds since the epoch, or
/// none for a clock set before it.
pub open spec fn reading_of(time: std::time::SystemTime) -> Option<u64> {
    match since_epoch(time) {
        Some(duration) => Some(seconds_of(duration)),
        None => None,
    }
}

/// The stamp of a clock reading: its seconds as a signed number, or 0 for a
/// clock set before the epoch. Seconds beyond the signed range wrap round.
pub open spec fn stamp_of(seconds: Option<u64>) -> int {
    match seconds {
        None => 0,
        Some(s) => if s <= i64::MAX {
            s as int
        } else {
            s - 0x1_0000_0000_0000_0000
        },
    }
}

/// The stamp of a clock reading.
pub fn stamp(seconds: Option<u64>) -> (res: i64)
    ensures
        res == stamp_of(seconds),
{
    match seconds {
        None => 0,
        Some(s) => {
            proof {
                assert(s <= 0x7fff_ffff_ffff_ffffu64 ==> s as i64 == s) by (bit_vector);
                assert(s > 0x7fff_ffff_ffff_ffffu64 ==> s as i64 == s - 0x1_0000_0000_0000_0000int)
                    by (bit_vector);
            }
            #[verifier::truncate]
            (s as i64)
        },
    }
}

/// `now` is the stamp of a reading of the clock.
pub open spec fn is_stamp(now: i64) -> bool {
    exists|time: std::time::SystemTime| #[trigger]
        clock_shows(time) && now == stamp_of(reading_of(time))
}

/// The current time in whole seconds since the epoch.
pub fn unix_now_secs() -> (res: i64)
    ensures
        is_stamp(res),
{
    let time = now();
    match duration_since_epoch(time) {
        Some(duration) => stamp(Some(whole_seconds(duration))),
        None => stamp(None),
    }
}

/// A stamp is the number of whole seconds that the clock showed since the epoch,
/// as long as that fits, and zero for a clock before the epoch. Beyond the
/// signed range it differs from the seconds by two to the power of 64.
pub proof fn law_stamp_is_whole_seconds(now: i64)
    requires
        is_stamp(now),
    ensures
        exists|time: std::time::SystemTime| #[trigger]
            clock_shows(time) && match since_epoch(time) {
                None => now == 0,
                Some(duration) => if seconds_of(duration) < 0x8000_0000_0000_0000 {
                    now == seconds_of(duration)
                } else {
                    now == seconds_of(duration) - 0x1_0000_0000_0000_0000
                },
            },
{
}

} // verus!
