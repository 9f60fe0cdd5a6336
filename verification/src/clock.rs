//! The local calendar and clock, read through `chrono`.
use chrono::{Datelike, Local, Timelike};
use vstd::prelude::*;

verus! {

/// The first day that `chrono` can represent (`NaiveDate::MIN`), counted as days
/// from the common era: 0001-01-01 is day 1.
pub const FIRST_DAY: i32 = -95746129;

/// The last day that `chrono` can represent (`NaiveDate::MAX`).
pub const LAST_DAY: i32 = 95745399;

/// 1969-12-31 as days from the common era: the local date of the Unix epoch in
/// the westernmost time zone that `chrono` allows (a day less one second
/// behind UTC).
pub const UNIX_EPOCH_EVE: i32 = 719162;

/// Calls `Local::now().date_naive().num_days_from_ce()`: today's local date as
/// days from the common era. Claimed: the day lies in the range of `NaiveDate`,
/// and not before 1969-12-31, since `Local::now` goes through `Utc::now`, which
/// does not return for a system clock before the Unix epoch, and a local offset
/// is less than a day. Which day it is rests on the clock and the time zone.
#[verifier::external_body]
pub fn local_today() -> (d: i32)
    ensures
        UNIX_EPOCH_EVE <= d <= LAST_DAY,
{
    Local::now().date_naive().num_days_from_ce()
}

/// Calls `Local::now().hour()`. Claimed: an hour from 0 to 23, as `Timelike::hour`
/// documents. Which hour rests on the clock and the time zone.
#[verifier::external_body]
pub fn local_hour() -> (h: u32)
    ensures
        h < 24,
{
    Local::now().hour()
}

/// Calls `Local::now().iso_week().week()`. Claimed: a week number from 1 to 53, as
/// `IsoWeek::week` documents. Which week rests on the clock and the time zone.
#[verifier::external_body]
pub fn local_iso_week() -> (w: u32)
    ensures
        1 <= w <= 53,
{
    Local::now().iso_week().week()
}

/// The earliest instant that `chrono` can represent (`DateTime::<Utc>::MIN_UTC`),
/// in seconds since the Unix epoch.
pub const FIRST_TIMESTAMP: i64 = -8334601228800;

/// The latest instant that `chrono` can represent (`DateTime::<Utc>::MAX_UTC`),
/// in whole seconds since the Unix epoch.
pub const LAST_TIMESTAMP: i64 = 8210266876799;

/// Calls `Local::now().timestamp()`: the seconds since the Unix epoch. Claimed:
/// the instant lies in the range of `DateTime` and not before the epoch, since
/// `Utc::now` does not return for a system clock before it. Which instant rests
/// on the clock.
#[verifier::external_body]
pub fn now_timestamp() -> (t: i64)
    ensures
        0 <= t <= LAST_TIMESTAMP,
{
    Local::now().timestamp()
}

} // verus!
