//! The wall clock, read through chrono.

use vstd::prelude::*;
use chrono::{Datelike, Timelike};

verus! {

/// A local calendar date and time of day, to the minute.
#[derive(Clone, Copy, Debug, PartialEq, Eq, Structural)]
pub struct LocalTime {
    pub month: u8,
    pub day: u8,
    pub hour: u8,
    pub minute: u8,
}

impl LocalTime {
    pub open spec fn wf(&self) -> bool {
        1 <= self.month <= 12 && 1 <= self.day <= 31 && self.hour <= 23 && self.minute <= 59
    }
}

/// Relies on chrono's `Utc::now` and `DateTime::timestamp_millis`: the current
/// instant, in milliseconds since the Unix epoch. Nothing is promised of it.
/// `Utc::now` panics only where the system clock reads before the epoch.
#[verifier::external_body]
pub(crate) fn now_millis() -> (r: i64) {
    chrono::Utc::now().timestamp_millis()
}

/// Relies on chrono's `Local::now` and the `Datelike` / `Timelike` accessors,
/// which give a month in 1..=12, a day in 1..=31, an hour in 0..=23 and a
/// minute in 0..=59. `Local::now` goes through `Utc::now`, which panics only
/// where the system clock reads before the epoch.
#[verifier::external_body]
pub(crate) fn local_now() -> (r: LocalTime)
    ensures
        r.wf(),
{
    let t = chrono::Local::now();
    LocalTime { month: t.month() as u8, day: t.day() as u8, hour: t.hour() as u8, minute: t.minute() as u8 }
}

} // verus!
