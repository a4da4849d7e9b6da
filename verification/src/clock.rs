//! The wall clock, as Unix seconds and milliseconds.
use std::time::{Duration, SystemTime};
use vstd::prelude::*;

verus! {

#[verifier::external_type_specification]
#[verifier::external_body]
pub struct ExSystemTime(std::time::SystemTime);

/// How long after the Unix epoch a point in time lies; nothing for one before
/// it.
pub uninterp spec fn since_epoch(t: SystemTime) -> Option<Duration>;

/// The whole seconds of a duration.
pub uninterp spec fn whole_seconds(d: Duration) -> u64;

/// The whole milliseconds of a duration.
pub uninterp spec fn whole_millis(d: Duration) -> u128;

/// `SystemTime::now` reads the system clock; nothing is promised of what it
/// shows.
pub assume_specification[ SystemTime::now ]() -> (r: SystemTime)
;

/// `Duration::as_secs` is the number of whole seconds of the duration.
pub assume_specification[ Duration::as_secs ](d: &Duration) -> (r: u64)
    ensures
        r == whole_seconds(*d),
;

/// `Duration::as_millis` is the number of whole milliseconds of the duration.
pub assume_specification[ Duration::as_millis ](d: &Duration) -> (r: u128)
    ensures
        r == whole_millis(*d),
;

/// `SystemTime::duration_since` the Unix epoch: the time that has passed since
/// then, and an error for a point in time before it.
#[verifier::external_body]
fn after_epoch(t: SystemTime) -> (r: Option<Duration>)
    ensures
        r == since_epoch(t),
{
    t.duration_since(SystemTime::UNIX_EPOCH).ok()
}

/// The Unix seconds for a number of seconds since the epoch; zero where the
/// clock stands before it.
pub open spec fn seconds_or_zero(secs: Option<u64>) -> i64 {
    match secs {
        Some(s) => s as i64,
        None => 0,
    }
}

/// The Unix seconds for a number of seconds since the epoch.
pub fn unix_seconds(secs: Option<u64>) -> (r: i64)
    ensures
        r == seconds_or_zero(secs),
{
    match secs {
        Some(s) => #[verifier::truncate] (s as i64),
        None => 0,
    }
}

/// The Unix milliseconds for a number of milliseconds since the epoch; zero
/// where the clock stands before it.
pub open spec fn millis_or_zero(ms: Option<u128>) -> i64 {
    match ms {
        Some(m) => m as i64,
        None => 0,
    }
}

/// The Unix milliseconds for a number of milliseconds since the epoch.
pub fn unix_millis(ms: Option<u128>) -> (r: i64)
    ensures
        r == millis_or_zero(ms),
{
    match ms {
        Some(m) => #[verifier::truncate] (m as i64),
        None => 0,
    }
}

/// The Unix seconds at a point in time.
pub open spec fn seconds_at(t: SystemTime) -> i64 {
    match since_epoch(t) {
        Some(d) => seconds_or_zero(Some(whole_seconds(d))),
        None => 0,
    }
}

/// The Unix milliseconds at a point in time.
pub open spec fn millis_at(t: SystemTime) -> i64 {
    match since_epoch(t) {
        Some(d) => millis_or_zero(Some(whole_millis(d))),
        None => 0,
    }
}

/// The Unix seconds that the clock shows.
pub fn unix_now() -> (r: i64)
    ensures
        exists|t: SystemTime| r == #[trigger] seconds_at(t),
{
    let t = SystemTime::now();
    let r: i64 = match after_epoch(t) {
        Some(d) => unix_seconds(Some(d.as_secs())),
        None => 0,
    };
    assert(r == seconds_at(t));
    r
}

/// The Unix milliseconds that the clock shows.
pub fn now_ms() -> (r: i64)
    ensures
        exists|t: SystemTime| r == #[trigger] millis_at(t),
{
    let t = SystemTime::now();
    let r: i64 = match after_epoch(t) {
        Some(d) => unix_millis(Some(d.as_millis())),
        None => 0,
    };
    assert(r == millis_at(t));
    r
}

/// A number of seconds or milliseconds that fits is taken as it is, and a clock before the
/// epoch shows nought.
pub proof fn law_clock_counts_from_the_epoch(s: u64, m: u128)
    ensures
        s <= i64::MAX ==> seconds_or_zero(Some(s)) == s,
        m <= i64::MAX ==> millis_or_zero(Some(m)) == m,
        seconds_or_zero(None) == 0,
        millis_or_zero(None) == 0,
{
}

/// The clock shows the whole seconds and milliseconds since the epoch, and nought before it.
pub proof fn law_clock_shows_the_time_since_the_epoch(t: SystemTime, d: Duration)
    ensures
        since_epoch(t) is None ==> seconds_at(t) == 0 && millis_at(t) == 0,
        since_epoch(t) == Some(d) && whole_seconds(d) <= i64::MAX ==> seconds_at(t)
            == whole_seconds(d),
        since_epoch(t) == Some(d) && whole_millis(d) <= i64::MAX ==> millis_at(t)
            == whole_millis(d),
{
}

} // verus!
