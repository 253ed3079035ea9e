//! Reading the date a user asks weather for.
use crate::errors::AppError;
use crate::weather::CalendarDate;
use vstd::prelude::*;
use vstd::string::StringExecFns;

verus! {

/// What a date-and-time text reads as under a chrono format: the instant taken as UTC,
/// in seconds since the Unix epoch, and its year, month and day; `None` when the text
/// does not match the format.
pub uninterp spec fn naive_datetime_reading(s: Seq<char>, fmt: Seq<char>) -> Option<(i64, i32, u32, u32)>;

/// The (year, month, day) of a `YYYY-MM-DD HH:MM:SS` text, or `None` when the text is
/// not of that form.
pub open spec fn datetime_text_ymd(s: Seq<char>) -> Option<(i32, u32, u32)> {
    match naive_datetime_reading(s, "%Y-%m-%d %H:%M:%S"@) {
        Some((_, y, m, d)) => Some((y, m, d)),
        None => None,
    }
}

/// The (year, month, day) of a `YYYY-MM-DD` text, or `None` when the text is not of
/// that form.
pub uninterp spec fn date_text_ymd(s: Seq<char>) -> Option<(i32, u32, u32)>;

/// Whether chrono's `DateTime::parse_from_rfc3339` accepts the text.
pub uninterp spec fn rfc3339_reads(s: Seq<char>) -> bool;

/// Relies on chrono's `DateTime::parse_from_rfc3339`: whether the text is RFC 3339 (which
/// depends on the text alone). The instant is moved into the machine's local time zone
/// and its calendar date taken, so the date depends on that zone.
#[verifier::external_body]
fn rfc3339_local_ymd(s: &str) -> (r: Option<(i32, u32, u32)>)
    ensures
        r is Some <==> rfc3339_reads(s@),
{
    chrono::DateTime::parse_from_rfc3339(s).ok().map(
        |t| {
            let d = t.with_timezone(&chrono::Local).date_naive();
            (chrono::Datelike::year(&d), chrono::Datelike::month(&d), chrono::Datelike::day(&d))
        },
    )
}

/// Relies on chrono's `NaiveDateTime::parse_from_str`: whether `s` matches `fmt`, and
/// the date and time it gives, counted as UTC by `and_utc().timestamp()`.
#[verifier::external_body]
pub(crate) fn parse_naive_datetime(s: &str, fmt: &str) -> (r: Option<(i64, i32, u32, u32)>)
    ensures
        r == naive_datetime_reading(s@, fmt@),
{
    chrono::NaiveDateTime::parse_from_str(s, fmt).ok().map(
        |t| (
            t.and_utc().timestamp(),
            chrono::Datelike::year(&t),
            chrono::Datelike::month(&t),
            chrono::Datelike::day(&t),
        ),
    )
}

/// The date of a `YYYY-MM-DD HH:MM:SS` text.
fn datetime_ymd(s: &str) -> (r: Option<(i32, u32, u32)>)
    ensures
        r == datetime_text_ymd(s@),
{
    match parse_naive_datetime(s, "%Y-%m-%d %H:%M:%S") {
        Some((_, y, m, d)) => Some((y, m, d)),
        None => None,
    }
}

/// Relies on chrono's `NaiveDate::parse_from_str` with `%Y-%m-%d`.
#[verifier::external_body]
fn date_ymd(s: &str) -> (r: Option<(i32, u32, u32)>)
    ensures
        r == date_text_ymd(s@),
{
    chrono::NaiveDate::parse_from_str(s, "%Y-%m-%d").ok().map(
        |d| (chrono::Datelike::year(&d), chrono::Datelike::month(&d), chrono::Datelike::day(&d)),
    )
}

/// The first of the readings that is there.
pub open spec fn first_reading(
    rfc3339: Option<(i32, u32, u32)>,
    with_time: Option<(i32, u32, u32)>,
    plain: Option<(i32, u32, u32)>,
) -> Option<(i32, u32, u32)> {
    if rfc3339 is Some {
        rfc3339
    } else if with_time is Some {
        with_time
    } else {
        plain
    }
}

/// What a date argument gives, given its readings as RFC 3339 (in local time), as
/// `YYYY-MM-DD HH:MM:SS` and as `YYYY-MM-DD`: the first reading that is there, if it is
/// a date of the years 0 to 9999; otherwise an `InvalidDate` error carrying the text.
pub open spec fn date_outcome(
    text: Seq<char>,
    rfc3339: Option<(i32, u32, u32)>,
    with_time: Option<(i32, u32, u32)>,
    plain: Option<(i32, u32, u32)>,
    r: Result<CalendarDate, AppError>,
) -> bool {
    match first_reading(rfc3339, with_time, plain) {
        Some((y, m, d)) if CalendarDate::valid_ymd(y as int, m as int, d as int) => (r matches Ok(
            c,
        ) && c.wf() && c.spec_year() == y && c.spec_month() == m && c.spec_day() == d),
        _ => (r matches Err(AppError::InvalidDate(t)) && t@ == text),
    }
}

/// The date that `text` gives, from its readings in the three accepted forms, the
/// first form that reads winning.
pub fn pick_date(
    text: &str,
    rfc3339: Option<(i32, u32, u32)>,
    with_time: Option<(i32, u32, u32)>,
    plain: Option<(i32, u32, u32)>,
) -> (r: Result<CalendarDate, AppError>)
    ensures
        date_outcome(text@, rfc3339, with_time, plain, r),
{
    let first = match rfc3339 {
        Some(x) => Some(x),
        None => match with_time {
            Some(x) => Some(x),
            None => plain,
        },
    };
    match first {
        Some((y, m, d)) => match CalendarDate::new(y, m, d) {
            Some(c) => Ok(c),
            None => Err(AppError::InvalidDate(String::from_str(text))),
        },
        None => Err(AppError::InvalidDate(String::from_str(text))),
    }
}

/// Reads a date argument: RFC 3339 (its date in local time), `YYYY-MM-DD HH:MM:SS` or
/// `YYYY-MM-DD`, tried in that order.
pub fn parse_datetime(text: &str) -> (r: Result<CalendarDate, AppError>)
    ensures
        exists|rfc3339: Option<(i32, u32, u32)>|
            #[trigger] date_outcome(
                text@,
                rfc3339,
                datetime_text_ymd(text@),
                date_text_ymd(text@),
                r,
            ),
        !rfc3339_reads(text@) ==> date_outcome(
            text@,
            None,
            datetime_text_ymd(text@),
            date_text_ymd(text@),
            r,
        ),
{
    let rfc3339 = rfc3339_local_ymd(text);
    let r = pick_date(text, rfc3339, datetime_ymd(text), date_ymd(text));
    proof {
        assert(date_outcome(text@, rfc3339, datetime_text_ymd(text@), date_text_ymd(text@), r));
    }
    r
}

} // verus!
