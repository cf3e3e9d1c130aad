//! Dates of posts, as the pages and the feed show them.

use crate::text::{opt_view, or_text};
use chrono::{DateTime, Datelike, NaiveDate, Utc};
use vstd::prelude::*;

verus! {

/// Year, month and day of the calendar date that a text of the form
/// `YYYY-MM-DD` names, or nothing where the text names no date.
pub uninterp spec fn iso_date_fields(text: Seq<char>) -> Option<(int, int, int)>;

/// The long form of a calendar date: the month's English name, the day
/// without padding, a comma, and the year. There is none where year, month
/// and day are no calendar date.
pub uninterp spec fn long_date_text(year: int, month: int, day: int) -> Option<Seq<char>>;

/// The form of a calendar date at midnight, universal time, that feeds use:
/// weekday, day, month, year, time and `GMT`. There is none where year,
/// month and day are no calendar date.
pub uninterp spec fn feed_date_text(year: int, month: int, day: int) -> Option<Seq<char>>;

/// `NaiveDate::parse_from_str` with the format `%Y-%m-%d`, and the parsed
/// date's year, month and day.
#[verifier::external_body]
fn parse_iso_date(text: &str) -> (fields: Option<(i32, u32, u32)>)
    ensures
        match fields {
            Some((y, m, d)) => iso_date_fields(text@) == Some((y as int, m as int, d as int)),
            None => iso_date_fields(text@) is None,
        },
{
    match NaiveDate::parse_from_str(text, "%Y-%m-%d") {
        Ok(date) => Some((date.year(), date.month(), date.day())),
        Err(_) => None,
    }
}

/// `NaiveDate::from_ymd_opt` and `NaiveDate::format` with the format
/// `%B %-d, %Y`.
#[verifier::external_body]
fn long_date(year: i32, month: u32, day: u32) -> (text: Option<String>)
    ensures
        opt_view(text) == long_date_text(year as int, month as int, day as int),
{
    let date = NaiveDate::from_ymd_opt(year, month, day)?;
    Some(date.format("%B %-d, %Y").to_string())
}

/// `NaiveDate::from_ymd_opt`, `NaiveDate::and_hms_opt` at midnight,
/// `DateTime::from_naive_utc_and_offset` in universal time, and
/// `DateTime::format` with the format `%a, %d %b %Y %H:%M:%S GMT`.
#[verifier::external_body]
fn feed_date(year: i32, month: u32, day: u32) -> (text: Option<String>)
    ensures
        opt_view(text) == feed_date_text(year as int, month as int, day as int),
{
    let date = NaiveDate::from_ymd_opt(year, month, day)?;
    let midnight = date.and_hms_opt(0, 0, 0)?;
    let utc = DateTime::<Utc>::from_naive_utc_and_offset(midnight, Utc);
    Some(utc.format("%a, %d %b %Y %H:%M:%S GMT").to_string())
}

/// A date as a page shows it: the long form of the date that the text names,
/// or the text itself where it names no date.
pub open spec fn date_on_page(text: Seq<char>) -> Seq<char> {
    match iso_date_fields(text) {
        Some((y, m, d)) => match long_date_text(y, m, d) {
            Some(long) => long,
            None => text,
        },
        None => text,
    }
}

/// A date as the feed shows it: the feed form of the date that the text
/// names, or the text itself where it names no date.
pub open spec fn date_in_feed(text: Seq<char>) -> Seq<char> {
    match iso_date_fields(text) {
        Some((y, m, d)) => match feed_date_text(y, m, d) {
            Some(stamp) => stamp,
            None => text,
        },
        None => text,
    }
}

/// Formats a date of the form `YYYY-MM-DD` for a page. A text that names no
/// date is handed back as it is.
pub fn format_date(date_str: &str) -> (out: String)
    ensures
        out@ == date_on_page(date_str@),
{
    let long = match parse_iso_date(date_str) {
        Some((y, m, d)) => long_date(y, m, d),
        None => None,
    };
    or_text(long, date_str)
}

/// Formats a date of the form `YYYY-MM-DD` for the feed. A text that names
/// no date is handed back as it is.
pub fn format_feed_date(date_str: &str) -> (out: String)
    ensures
        out@ == date_in_feed(date_str@),
{
    let stamp = match parse_iso_date(date_str) {
        Some((y, m, d)) => feed_date(y, m, d),
        None => None,
    };
    or_text(stamp, date_str)
}

} // verus!
