//! The wall clock.

use std::time::{Duration, SystemTime, UNIX_EPOCH};

use chrono::{DateTime, SecondsFormat};

use vstd::prelude::*;

verus! {

/// `std::time::SystemTime`, a point in time of the system clock.
#[verifier::external_type_specification]
#[verifier::external_body]
pub struct ExSystemTime(SystemTime);

/// `std::time::SystemTime::now`: the time of the call, of which nothing can be said.
pub assume_specification[ SystemTime::now ]() -> (now: SystemTime)
;

/// `std::time::SystemTime::duration_since` the Unix epoch, or nothing for an earlier time. How long
/// it has been is the clock's to say.
#[verifier::external_body]
fn since_epoch(time: &SystemTime) -> (r: Option<Duration>) {
    time.duration_since(UNIX_EPOCH).ok()
}

/// `std::time::Duration::as_nanos`: the whole nanoseconds. A `Duration` is opaque here, so which
/// number that is goes unsaid.
pub assume_specification[ Duration::as_nanos ](length: &Duration) -> (r: u128)
;

/// The whole seconds in so many nanoseconds, as far as they fit.
pub open spec fn seconds_in(nanos: u128) -> u64 {
    if nanos / 1_000_000_000 > u64::MAX {
        u64::MAX
    } else {
        (nanos / 1_000_000_000) as u64
    }
}

/// The nanoseconds beyond the whole seconds.
pub open spec fn subsec_in(nanos: u128) -> u32 {
    (nanos % 1_000_000_000) as u32
}

/// The whole microseconds in so many nanoseconds, as far as they fit.
pub open spec fn micros_in(nanos: u128) -> u64 {
    if nanos / 1_000 > u64::MAX {
        u64::MAX
    } else {
        (nanos / 1_000) as u64
    }
}

/// The low 64 bits of a number of nanoseconds.
pub open spec fn low_bits(nanos: u128) -> u64 {
    (nanos % 0x1_0000_0000_0000_0000) as u64
}

/// The nanoseconds since the Unix epoch; zero where the clock is before it. The clock decides.
pub fn now_nanos_wide() -> (r: u128) {
    let now = SystemTime::now();
    match since_epoch(&now) {
        Some(length) => length.as_nanos(),
        None => 0,
    }
}

pub fn to_seconds(nanos: u128) -> (r: u64)
    ensures
        r == seconds_in(nanos),
{
    let seconds: u128 = nanos / 1_000_000_000;
    if seconds > u64::MAX as u128 {
        u64::MAX
    } else {
        seconds as u64
    }
}

pub fn to_micros(nanos: u128) -> (r: u64)
    ensures
        r == micros_in(nanos),
{
    let micros: u128 = nanos / 1_000;
    if micros > u64::MAX as u128 {
        u64::MAX
    } else {
        micros as u64
    }
}

/// The seconds since the Unix epoch; zero before it.
pub fn now_seconds() -> (r: u64)
    ensures
        exists|nanos: u128| r == #[trigger] seconds_in(nanos),
{
    let nanos: u128 = now_nanos_wide();
    to_seconds(nanos)
}

/// The nanoseconds in the current second.
pub fn now_subsec_nanos() -> (r: u32)
    ensures
        exists|nanos: u128| r == #[trigger] subsec_in(nanos),
        r < 1_000_000_000,
{
    let nanos: u128 = now_nanos_wide();
    let r: u32 = (nanos % 1_000_000_000) as u32;
    assert(r == subsec_in(nanos));
    r
}

/// The microseconds since the Unix epoch, as far as they fit; zero before it.
pub fn now_micros() -> (r: u64)
    ensures
        exists|nanos: u128| r == #[trigger] micros_in(nanos),
{
    let nanos: u128 = now_nanos_wide();
    to_micros(nanos)
}

/// The nanoseconds since the Unix epoch, of which the low 64 bits are kept; zero before it.
pub fn now_nanos() -> (r: u64)
    ensures
        exists|nanos: u128| r == #[trigger] low_bits(nanos),
{
    let nanos: u128 = now_nanos_wide();
    let r: u64 = (nanos % 0x1_0000_0000_0000_0000) as u64;
    assert(r == low_bits(nanos));
    r
}

/// The last second that a date can be given for, in the year 262142.
pub const LAST_SECOND: u64 = 8_210_266_876_799;

/// The text that `chrono::DateTime::to_rfc3339_opts` writes in whole seconds and with `Z` for the
/// zone for the time that lies `seconds` behind the Unix epoch.
pub uninterp spec fn utc_text(seconds: u64) -> Seq<char>;

/// `chrono::DateTime::from_timestamp`, written with `to_rfc3339_opts`. What the date of a second is
/// is the crate's to say: the contract names the text, which depends on the second alone.
#[verifier::external_body]
fn write_utc(seconds: u64) -> (r: String)
    requires
        seconds <= LAST_SECOND,
    ensures
        r@ == utc_text(seconds),
{
    match DateTime::from_timestamp(seconds as i64, 0) {
        Some(time) => time.to_rfc3339_opts(SecondsFormat::Secs, true),
        None => String::new(),
    }
}

/// The second that is written for a time: its own, or the last one that has a date.
pub open spec fn dated_second(nanos: u128) -> u64 {
    if seconds_in(nanos) > LAST_SECOND {
        LAST_SECOND
    } else {
        seconds_in(nanos)
    }
}

/// Whether a text is the date and the time of day of some time.
pub open spec fn is_timestamp(text: Seq<char>) -> bool {
    exists|nanos: u128| text == utc_text(#[trigger] dated_second(nanos))
}

/// A time as a date and a time of day.
pub fn timestamp_at(nanos: u128) -> (r: String)
    ensures
        r@ == utc_text(dated_second(nanos)),
{
    let seconds: u64 = to_seconds(nanos);
    write_utc(
        if seconds > LAST_SECOND {
            LAST_SECOND
        } else {
            seconds
        },
    )
}

/// This time, as a date and a time of day. Which time that is depends on the clock.
pub fn current_timestamp() -> (r: String)
    ensures
        is_timestamp(r@),
{
    let nanos: u128 = now_nanos_wide();
    timestamp_at(nanos)
}

/// Seconds, and the nanoseconds beyond them, make up a time; so do microseconds but for what is
/// less than one.
pub proof fn times_are_made_up_of_their_parts(nanos: u128)
    requires
        nanos < 1_000_000_000_000_000_000_000,
    ensures
        seconds_in(nanos) * 1_000_000_000 + subsec_in(nanos) == nanos,
        subsec_in(nanos) < 1_000_000_000,
        micros_in(nanos) * 1_000 <= nanos < (micros_in(nanos) + 1) * 1_000,
        nanos < 0x1_0000_0000_0000_0000 ==> low_bits(nanos) == nanos,
{
}

} // verus!
