//! Calendar facts the service needs: timestamps rendered as text, the day of
//! the week, and the US Eastern daylight-saving window that decides when the
//! stat periods reset.
use vstd::prelude::*;

verus! {

/// The earliest year a calendar date can carry.
pub const MIN_YEAR: i32 = -262143;
/// The latest year a calendar date can carry.
pub const MAX_YEAR: i32 = 262142;

/// The RFC 3339 text of the instant `ms` milliseconds after the Unix epoch,
/// or `None` where no calendar date holds it.
pub uninterp spec fn rfc3339_text(ms: i64) -> Option<Seq<char>>;

/// The text `Mon DD, YYYY HH:MM UTC` of the instant `ms` milliseconds after
/// the Unix epoch, or `None` where no calendar date holds it.
pub uninterp spec fn readable_text(ms: i64) -> Option<Seq<char>>;

/// The text `Mon D, YYYY` of the UTC date of the instant `ms` milliseconds
/// after the Unix epoch, or `None` where no calendar date holds it.
pub uninterp spec fn bookmark_date_text(ms: i64) -> Option<Seq<char>>;

/// The day of the week of a calendar date, counted from Sunday (0) to
/// Saturday (6), or `None` where the date does not exist.
pub uninterp spec fn weekday_of(year: i32, month: u32, day: u32) -> Option<u32>;

/// Renders the instant `ms` milliseconds after the Unix epoch as RFC 3339.
///
/// Trusted: calls `chrono::DateTime::from_timestamp_millis` and, on the date it
/// returns, `DateTime::to_rfc3339`. The contract only names the text; chrono
/// documents `None` for an out-of-range count of milliseconds.
#[verifier::external_body]
pub(crate) fn rfc3339_from_millis(ms: i64) -> (r: Option<String>)
    ensures
        match r {
            Some(s) => rfc3339_text(ms) == Some(s@),
            None => rfc3339_text(ms) is None,
        },
{
    match chrono::DateTime::from_timestamp_millis(ms) {
        Some(dt) => Some(dt.to_rfc3339()),
        None => None,
    }
}

/// Renders the instant `ms` milliseconds after the Unix epoch as
/// `Mon DD, YYYY HH:MM UTC`.
///
/// Trusted: calls `chrono::DateTime::from_timestamp_millis` and, on the date it
/// returns, `DateTime::format` with the pattern `%b %d, %Y %H:%M UTC`. The
/// contract only names the text.
#[verifier::external_body]
pub(crate) fn readable_from_millis(ms: i64) -> (r: Option<String>)
    ensures
        match r {
            Some(s) => readable_text(ms) == Some(s@),
            None => readable_text(ms) is None,
        },
{
    match chrono::DateTime::from_timestamp_millis(ms) {
        Some(dt) => Some(dt.format("%b %d, %Y %H:%M UTC").to_string()),
        None => None,
    }
}

/// Renders the UTC date of the instant `ms` milliseconds after the Unix epoch
/// as `Mon D, YYYY`.
///
/// Trusted: calls `chrono::DateTime::from_timestamp_millis` and, on the date it
/// returns, `DateTime::format` with the pattern `%b %-d, %Y`. The contract only
/// names the text; chrono documents `None` for an out-of-range count of
/// milliseconds.
#[verifier::external_body]
pub(crate) fn bookmark_date_from_millis(ms: i64) -> (r: Option<String>)
    ensures
        match r {
            Some(s) => bookmark_date_text(ms) == Some(s@),
            None => bookmark_date_text(ms) is None,
        },
{
    match chrono::DateTime::from_timestamp_millis(ms) {
        Some(dt) => Some(dt.format("%b %-d, %Y").to_string()),
        None => None,
    }
}

/// The day of the week of `year-month-day`, counted from Sunday.
///
/// Trusted: calls `chrono::NaiveDate::from_ymd_opt` and, on the date it
/// returns, `weekday().num_days_from_sunday()`. chrono documents `None` only
/// for an invalid month or day or a year out of its range, so a day from 1 to
/// 28 of a month from 1 to 12 in a year of that range always has a weekday,
/// and a weekday counted from Sunday is below 7.
#[verifier::external_body]
pub(crate) fn weekday_from_sunday(year: i32, month: u32, day: u32) -> (r: Option<u32>)
    ensures
        r == weekday_of(year, month, day),
        MIN_YEAR <= year <= MAX_YEAR && 1 <= month <= 12 && 1 <= day <= 28 ==> r is Some,
        r matches Some(w) ==> w < 7,
{
    match chrono::NaiveDate::from_ymd_opt(year, month, day) {
        Some(d) => Some(chrono::Datelike::weekday(&d).num_days_from_sunday()),
        None => None,
    }
}

/// The UTC calendar date, as year, month and day, of the instant `ms`
/// milliseconds after the Unix epoch, or `None` where no calendar date holds it.
pub uninterp spec fn utc_date_of(ms: i64) -> Option<(i32, u32, u32)>;

/// The date `n` days before `year-month-day`, or `None` where that date or
/// the result does not exist.
pub uninterp spec fn days_before(year: i32, month: u32, day: u32, n: u32) -> Option<(i32, u32, u32)>;

/// The milliseconds after the Unix epoch of `hour:minute` UTC on
/// `year-month-day`, or `None` where that date or time does not exist.
pub uninterp spec fn utc_millis_at(year: i32, month: u32, day: u32, hour: u32, minute: u32) -> Option<i64>;

/// A year, month and day that a calendar date can carry.
pub open spec fn date_in_range(d: (i32, u32, u32)) -> bool {
    MIN_YEAR <= d.0 <= MAX_YEAR && 1 <= d.1 <= 12 && 1 <= d.2 <= 31
}

/// The UTC date of the instant `ms` milliseconds after the Unix epoch.
///
/// Trusted: calls `chrono::DateTime::from_timestamp_millis` and reads the
/// year, month and day of `date_naive()` on the result. The contract names the
/// date; chrono's dates carry a year from `MIN_YEAR` to `MAX_YEAR`, a month
/// from 1 to 12 and a day from 1 to 31.
#[verifier::external_body]
pub(crate) fn utc_date_from_millis(ms: i64) -> (r: Option<(i32, u32, u32)>)
    ensures
        r == utc_date_of(ms),
        r matches Some(d) ==> date_in_range(d),
{
    match chrono::DateTime::from_timestamp_millis(ms) {
        Some(dt) => {
            let d = dt.date_naive();
            Some((chrono::Datelike::year(&d), chrono::Datelike::month(&d), chrono::Datelike::day(&d)))
        },
        None => None,
    }
}

/// The date `n` days before `year-month-day`.
///
/// Trusted: calls `chrono::NaiveDate::from_ymd_opt` and, on the date it
/// returns, `checked_sub_days(Days::new(n))`, then reads the year, month and
/// day. The contract names the date; its range is that of chrono's dates.
/// When there is a result, the given date exists, so it has a weekday, and the
/// result, `n` days earlier, falls `n` places earlier in the weekly cycle.
#[verifier::external_body]
pub(crate) fn date_days_before(year: i32, month: u32, day: u32, n: u32) -> (r: Option<(i32, u32, u32)>)
    ensures
        r == days_before(year, month, day, n),
        r matches Some(d) ==> date_in_range(d),
        r matches Some(d) ==> weekday_of(year, month, day) matches Some(w) && weekday_of(d.0, d.1, d.2) == Some(
            ((w as int - n as int) % 7) as u32,
        ),
{
    match chrono::NaiveDate::from_ymd_opt(year, month, day) {
        Some(d) => match d.checked_sub_days(chrono::Days::new(n as u64)) {
            Some(e) => Some((chrono::Datelike::year(&e), chrono::Datelike::month(&e), chrono::Datelike::day(&e))),
            None => None,
        },
        None => None,
    }
}

/// The instant of `hour:minute` UTC on `year-month-day`, in milliseconds
/// after the Unix epoch.
///
/// Trusted: calls `chrono::NaiveDate::from_ymd_opt`, `and_hms_opt(hour,
/// minute, 0)`, `and_utc()` and `timestamp_millis()`. The contract names the
/// instant; an instant made from a date and a time of day falls, in UTC, on
/// that date (chrono reads every such instant back with
/// `from_timestamp_millis`), at that time of day: chrono accepts only an hour
/// below 24 and a minute below 60, and counts whole days of 86,400,000
/// milliseconds from the epoch.
#[verifier::external_body]
pub(crate) fn millis_at(year: i32, month: u32, day: u32, hour: u32, minute: u32) -> (r: Option<i64>)
    ensures
        r == utc_millis_at(year, month, day, hour, minute),
        r matches Some(ms) ==> utc_date_of(ms) == Some((year, month, day)),
        r matches Some(ms) ==> hour < 24 && minute < 60 && ms % 86_400_000 == (hour * 3600 + minute * 60) * 1000,
{
    match chrono::NaiveDate::from_ymd_opt(year, month, day) {
        Some(d) => match d.and_hms_opt(hour, minute, 0) {
            Some(t) => Some(t.and_utc().timestamp_millis()),
            None => None,
        },
        None => None,
    }
}

/// `ms` as RFC 3339 text, empty where no calendar date holds it.
pub open spec fn rfc3339_or_empty(ms: i64) -> Seq<char> {
    match rfc3339_text(ms) {
        Some(s) => s,
        None => Seq::empty(),
    }
}

/// `ms` as readable text, empty where no calendar date holds it.
pub open spec fn readable_or_empty(ms: i64) -> Seq<char> {
    match readable_text(ms) {
        Some(s) => s,
        None => Seq::empty(),
    }
}

/// Renders a millisecond timestamp as `Mon DD, YYYY HH:MM UTC`, or as the empty
/// string where no calendar date holds it.
pub fn millis_readable(ms: i64) -> (r: String)
    ensures
        r@ == readable_or_empty(ms),
{
    match readable_from_millis(ms) {
        Some(s) => s,
        None => String::new(),
    }
}

/// Renders a millisecond timestamp as RFC 3339, or as the empty string where no
/// calendar date holds it.
pub fn millis_rfc3339(ms: i64) -> (r: String)
    ensures
        r@ == rfc3339_or_empty(ms),
{
    match rfc3339_from_millis(ms) {
        Some(s) => s,
        None => String::new(),
    }
}

/// The day of March on which daylight saving time starts in the US Eastern
/// zone (the second Sunday), given the weekday of March 1 counted from Sunday.
pub open spec fn second_sunday(first_weekday: u32) -> int {
    1 + (7 - first_weekday) % 7 + 7
}

/// The day of November on which daylight saving time ends in the US Eastern
/// zone (the first Sunday), given the weekday of November 1 counted from Sunday.
pub open spec fn first_sunday(first_weekday: u32) -> int {
    1 + (7 - first_weekday) % 7
}

/// Whether `month`/`day` lies in the daylight-saving window of a year whose
/// March 1 and November 1 fall on the weekdays `march_first` and
/// `november_first`: from the second Sunday of March up to, not including,
/// the first Sunday of November.
pub open spec fn in_dst_window(month: u32, day: u32, march_first: u32, november_first: u32) -> bool {
    &&& (month > 3 || (month == 3 && day >= second_sunday(march_first)))
    &&& (month < 11 || (month == 11 && day < first_sunday(november_first)))
}

/// The weekday of the first of `month` in `year`, counted from Sunday.
pub open spec fn first_weekday(year: i32, month: u32) -> u32 {
    match weekday_of(year, month, 1) {
        Some(w) => w,
        None => 0,
    }
}

/// Whether the date `year-month-day` falls in US Eastern daylight saving time.
pub fn is_eastern_dst(year: i32, month: u32, day: u32) -> (r: bool)
    requires
        MIN_YEAR <= year <= MAX_YEAR,
    ensures
        r == in_dst_window(month, day, first_weekday(year, 3), first_weekday(year, 11)),
{
    let march = match weekday_from_sunday(year, 3, 1) {
        Some(w) => w,
        None => 0,
    };
    let spring: u32 = 1 + (7 - march) % 7 + 7;
    let november = match weekday_from_sunday(year, 11, 1) {
        Some(w) => w,
        None => 0,
    };
    let fall: u32 = 1 + (7 - november) % 7;
    let after_spring = month > 3 || (month == 3 && day >= spring);
    let before_fall = month < 11 || (month == 11 && day < fall);
    after_spring && before_fall
}

/// The second Sunday of March falls between the 8th and the 14th, the first
/// Sunday of November between the 1st and the 7th.
pub proof fn lemma_dst_bounds(march_first: u32, november_first: u32)
    requires
        march_first < 7,
        november_first < 7,
    ensures
        8 <= second_sunday(march_first) <= 14,
        1 <= first_sunday(november_first) <= 7,
{
}

/// Daylight saving time holds on every day from April to October and on no
/// day from December to February, whatever the weekdays of the year.
pub proof fn lemma_dst_by_month(month: u32, day: u32, march_first: u32, november_first: u32)
    requires
        march_first < 7,
        november_first < 7,
    ensures
        4 <= month <= 10 ==> in_dst_window(month, day, march_first, november_first),
        (month <= 2 || month >= 12) ==> !in_dst_window(month, day, march_first, november_first),
{
}

} // verus!
