//! The wall clock.

use std::time::{Duration, SystemTime, UNIX_EPOCH};
use vstd::prelude::*;

verus! {

#[verifier::external_type_specification]
#[verifier::external_body]
pub struct ExSystemTime(SystemTime);

/// `SystemTime::now`: the system clock's reading. Nothing is promised of
/// it: the clock may be set to any time, and may go back.
#[verifier::external_body]
fn system_now() -> SystemTime {
    SystemTime::now()
}

/// `SystemTime::duration_since`: the time from the start of 1970 to the
/// reading, or nothing where the reading lies before that start.
#[verifier::external_body]
fn since_epoch(reading: &SystemTime) -> Option<Duration> {
    reading.duration_since(UNIX_EPOCH).ok()
}

/// `Duration::as_secs`: the whole seconds in the duration.
#[verifier::external_body]
fn whole_seconds(span: &Duration) -> u64 {
    span.as_secs()
}

/// `Duration::as_millis`: the whole milliseconds in the duration.
#[verifier::external_body]
fn whole_millis(span: &Duration) -> u128 {
    span.as_millis()
}

/// Seconds since the start of 1970 by the system clock; 0 where the clock
/// reads a time before that.
pub fn now_seconds() -> u64 {
    let reading = system_now();
    let elapsed = match since_epoch(&reading) {
        Some(span) => Some(whole_seconds(&span)),
        None => None,
    };
    seconds_of(elapsed)
}

/// Milliseconds since 1970 by the system clock, cut to 64 bits; 0 for a reading before 1970.
pub fn now_millis() -> u64 {
    let reading = system_now();
    let elapsed = match since_epoch(&reading) {
        Some(span) => Some(whole_millis(&span)),
        None => None,
    };
    millis_of(elapsed)
}

/// What is left of a count when it is cut to its lowest 64 bits.
pub open spec fn low_64_bits(count: u128) -> u64 {
    (count % 0x1_0000_0000_0000_0000) as u64
}

/// The seconds a clock shows whose reading lies `elapsed` whole seconds
/// after the start of 1970, or before that start: then it shows 0.
pub fn seconds_of(elapsed: Option<u64>) -> (secs: u64)
    ensures
        secs == (match elapsed {
            Some(whole) => whole,
            None => 0,
        }),
{
    match elapsed {
        Some(whole) => whole,
        None => 0,
    }
}

/// The milliseconds a clock shows whose reading lies `elapsed` whole
/// milliseconds after the start of 1970, or before that start: the
/// count cut to its lowest 64 bits, or 0.
pub fn millis_of(elapsed: Option<u128>) -> (millis: u64)
    ensures
        millis == (match elapsed {
            Some(whole) => low_64_bits(whole),
            None => 0,
        }),
{
    match elapsed {
        Some(whole) => {
            assert(whole as u64 == (whole % 0x1_0000_0000_0000_0000) as u64) by (bit_vector);
            #[verifier::truncate]
            (whole as u64)
        },
        None => 0,
    }
}

} // verus!
