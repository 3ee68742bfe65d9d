//! The quota data shown in the title bar: one window per reported limit and
//! the snapshot that the reader publishes.
use vstd::prelude::*;

use crate::locale::{duration_label_of, reset_label_of, AppLocale};

verus! {

/// The local calendar time at which a quota window resets, as the fields
/// that the labels read.
#[derive(Clone, Copy, Debug, PartialEq, Eq, Structural)]
pub struct ResetTime {
    pub month: u32,
    pub day: u32,
    pub hour: u32,
    pub minute: u32,
}

impl ResetTime {
    /// The ranges of a calendar time: month 1–12, day 1–31, hour 0–23,
    /// minute 0–59.
    pub open spec fn is_valid(self) -> bool {
        &&& 1 <= self.month <= 12
        &&& 1 <= self.day <= 31
        &&& self.hour < 24
        &&& self.minute < 60
    }

    /// This is the clock reading `seconds` seconds after 1970-01-01 00:00
    /// of the same clock, in the proleptic Gregorian calendar.
    pub open spec fn is_reading_at(self, seconds: int) -> bool {
        let day = seconds / 86400;
        let rest = seconds % 86400;
        &&& exists|year: int|
            days_from_civil(year, self.month as int, self.day as int) == day && self.day
                <= days_in_month(year, self.month as int)
        &&& self.hour == rest / 3600
        &&& self.minute == rest % 3600 / 60
    }

    /// This is the local reading of the instant `timestamp` (seconds since
    /// 1970-01-01 00:00 UTC) on a clock whose offset from UTC is less than a
    /// day either way.
    pub open spec fn is_local_time_of(self, timestamp: int) -> bool {
        exists|local: int| -86400 < local - timestamp < 86400 && self.is_reading_at(local)
    }
}

/// Whether `year` is a leap year of the proleptic Gregorian calendar.
pub open spec fn is_leap_year(year: int) -> bool {
    (year % 4 == 0 && year % 100 != 0) || year % 400 == 0
}

/// The number of leap years among the years `1..=n` (negative, for `n < 0`,
/// the number among `n + 1..=0`).
pub open spec fn leap_years_through(n: int) -> int {
    n / 4 - n / 100 + n / 400
}

/// The number of days of `month` (1–12) in `year`.
pub open spec fn days_in_month(year: int, month: int) -> int {
    if month == 2 {
        if is_leap_year(year) { 29 } else { 28 }
    } else if month == 4 || month == 6 || month == 9 || month == 11 {
        30
    } else {
        31
    }
}

/// The number of days in `year` before the first of `month` (1–12).
pub open spec fn days_before_month(year: int, month: int) -> int {
    let common: int = if month == 1 { 0 }
    else if month == 2 { 31 }
    else if month == 3 { 59 }
    else if month == 4 { 90 }
    else if month == 5 { 120 }
    else if month == 6 { 151 }
    else if month == 7 { 181 }
    else if month == 8 { 212 }
    else if month == 9 { 243 }
    else if month == 10 { 273 }
    else if month == 11 { 304 }
    else { 334 };
    if month > 2 && is_leap_year(year) { common + 1 } else { common }
}

/// The number of days from 1970-01-01 to `year`-`month`-`day`.
pub open spec fn days_from_civil(year: int, month: int, day: int) -> int {
    365 * (year - 1970) + leap_years_through(year - 1) - leap_years_through(1969)
        + days_before_month(year, month) + day - 1
}

/// One quota window reported by Codex.
///
/// `label` and `reset_label` are the Chinese texts for `duration_minutes`
/// and `resets_at`; the locale of the title bar renders its own from the raw
/// fields.
#[derive(Clone, Debug, PartialEq, Eq)]
pub struct LimitWindow {
    pub label: String,
    pub remaining_percent: u8,
    pub reset_label: String,
    pub duration_minutes: u64,
    pub resets_at: Option<ResetTime>,
}

/// Whether an optional reset time is a valid calendar time.
pub open spec fn reset_is_valid(resets_at: Option<ResetTime>) -> bool {
    match resets_at {
        Some(t) => t.is_valid(),
        None => true,
    }
}

impl LimitWindow {
    /// The reset time, when there is one, is a valid calendar time.
    pub open spec fn is_valid(self) -> bool {
        reset_is_valid(self.resets_at)
    }

    /// The labels agree with the raw fields, in Chinese.
    pub open spec fn has_chinese_labels(self) -> bool {
        &&& self.label@ == duration_label_of(AppLocale::Chinese, self.duration_minutes as nat)
        &&& self.reset_label@ == reset_label_of(
            AppLocale::Chinese,
            self.duration_minutes as nat,
            self.resets_at,
        )
    }

    /// A window of `duration_minutes` with `remaining_percent` left, which
    /// resets at `resets_at` (local time), labelled in Chinese.
    pub fn new(duration_minutes: u64, remaining_percent: u8, resets_at: Option<ResetTime>) -> (w:
        LimitWindow)
        requires
            reset_is_valid(resets_at),
        ensures
            w.duration_minutes == duration_minutes,
            w.remaining_percent == remaining_percent,
            w.resets_at == resets_at,
            w.is_valid(),
            w.has_chinese_labels(),
    {
        let label = AppLocale::Chinese.duration_label(duration_minutes);
        let reset_label = AppLocale::Chinese.reset_text(duration_minutes, resets_at);
        LimitWindow { label, remaining_percent, reset_label, duration_minutes, resets_at }
    }
}

/// Which status message the title bar shows while no quota is known.
#[derive(Clone, Copy, Debug, PartialEq, Eq, Structural)]
pub enum UsageStatus {
    Connecting,
    Retrying,
}

/// What the title bar shows: the short (primary) and weekly windows that
/// Codex reported, or a status message, and when the data was sampled
/// (seconds since the Unix epoch).
#[derive(Clone, Debug, PartialEq, Eq)]
pub struct UsageSnapshot {
    pub primary: Option<LimitWindow>,
    pub weekly: Option<LimitWindow>,
    pub status: Option<String>,
    pub sampled_at: Option<i64>,
}

/// The status text of a snapshot that is still connecting.
pub open spec fn connecting_status() -> Seq<char> {
    "正在读取 Codex 用量…"@
}

impl UsageSnapshot {
    /// No quota known yet: no windows, the connecting status, no sample time.
    pub fn connecting() -> (s: UsageSnapshot)
        ensures
            s.primary is None,
            s.weekly is None,
            s.status matches Some(m) && m@ == connecting_status(),
            s.sampled_at is None,
    {
        UsageSnapshot {
            primary: None,
            weekly: None,
            status: Some(String::from_str("正在读取 Codex 用量…")),
            sampled_at: None,
        }
    }

    /// No quota available: no windows, `message` as the status, no sample
    /// time.
    pub fn error(message: &str) -> (s: UsageSnapshot)
        ensures
            s.primary is None,
            s.weekly is None,
            s.status matches Some(m) && m@ == message@,
            s.sampled_at is None,
    {
        UsageSnapshot {
            primary: None,
            weekly: None,
            status: Some(String::from_str(message)),
            sampled_at: None,
        }
    }
}

impl Default for UsageSnapshot {
    /// The connecting snapshot.
    fn default() -> (s: UsageSnapshot)
        ensures
            s.primary is None,
            s.weekly is None,
            s.status matches Some(m) && m@ == connecting_status(),
            s.sampled_at is None,
    {
        UsageSnapshot::connecting()
    }
}

} // verus!
