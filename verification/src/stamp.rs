//! Wall-clock timestamps and event identifiers, from the chrono and uuid
//! crates. Every result depends on the clock, the timezone or randomness,
//! so the contracts promise only what holds of every outcome.

use vstd::prelude::*;

use chrono::Datelike;

verus! {

/// Relies on `chrono::Local::now` and `DateTime::to_rfc3339_opts`: the
/// current local time, RFC3339 with microseconds.
#[verifier::external_body]
pub fn now_rfc3339_micros() -> String {
    chrono::Local::now().to_rfc3339_opts(chrono::SecondsFormat::Micros, false)
}

/// Relies on `chrono::Local::now` and `TimeDelta::days`: the local
/// calendar date `days_back` days ago, as (year, month 1-12, day 1-31).
#[verifier::external_body]
pub fn local_date_back(days_back: u64) -> (r: (i32, u32, u32))
    requires
        days_back <= 3650,
    ensures
        1 <= r.1 <= 12,
        1 <= r.2 <= 31,
{
    let d = chrono::Local::now() - chrono::TimeDelta::days(days_back as i64);
    (d.year(), d.month(), d.day())
}

/// Relies on `chrono::TimeZone::with_ymd_and_hms` and
/// `DateTime::timestamp_micros`: the microseconds since the epoch of a
/// local calendar time, `None` when the fields name no valid local time.
#[verifier::external_body]
pub fn local_epoch_us(y: i32, mo: u32, d: u32, h: u32, mi: u32, s: u32) -> Option<i64> {
    chrono::TimeZone::with_ymd_and_hms(&chrono::Local, y, mo, d, h, mi, s).single().map(
        |t| t.timestamp_micros(),
    )
}

/// Relies on `uuid::Uuid::new_v4` and its hyphenated rendering: a random
/// version-4 UUID always renders as 36 characters.
#[verifier::external_body]
pub fn new_event_id() -> (r: String)
    ensures
        r@.len() == 36,
{
    uuid::Uuid::new_v4().hyphenated().to_string()
}

} // verus!
