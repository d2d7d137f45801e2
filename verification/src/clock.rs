//! Calendar and clock calls, behind trusted declarations.
//!
//! Timestamp parsing and date arithmetic are functions of their arguments
//! alone; their results are given names that contracts elsewhere speak of.
//! The current time and today's date depend on the clock, so nothing more
//! than validity is stated of them.
use vstd::prelude::*;

verus! {

/// The milliseconds-from-epoch reading of a timestamp text, as chrono's
/// `DateTime<Utc>` parser accepts it (RFC 3339 and close variants).
pub uninterp spec fn datetime_text_millis(s: Seq<char>) -> Option<int>;

/// The milliseconds-from-epoch reading of a timestamp text against a fixed
/// format pattern, interpreted as UTC.
pub uninterp spec fn naive_text_millis(s: Seq<char>, fmt: Seq<char>) -> Option<int>;

/// The milliseconds-from-epoch value of a whole-second epoch timestamp,
/// when it lies in the representable date range.
pub uninterp spec fn epoch_single_millis(n: int) -> Option<int>;

/// The calendar date a number of days before a given date, when both lie
/// in the representable date range.
pub uninterp spec fn date_minus_days(y: int, m: int, d: int, n: int) -> Option<(int, int, int)>;

/// Relies on chrono::Utc::now and DateTime::timestamp_millis: the clock's
/// current reading; nothing can be promised of it. chrono requires a
/// system clock at or after 1970.
#[verifier::external_body]
pub fn now_millis() -> i64 {
    chrono::Utc::now().timestamp_millis()
}

/// Relies on chrono::Utc::now and DateTime::date_naive: today's date in
/// UTC; beyond being a valid calendar date, nothing can be promised of
/// it. chrono requires a system clock at or after 1970.
#[verifier::external_body]
pub fn today_utc() -> (r: (i32, u8, u8))
    ensures
        1 <= r.1 <= 12,
        1 <= r.2 <= 31,
{
    let d = chrono::Utc::now().date_naive();
    (chrono::Datelike::year(&d), chrono::Datelike::month(&d) as u8, chrono::Datelike::day(&d) as u8)
}

/// Relies on chrono::NaiveDate::from_ymd_opt and checked_sub_days: the
/// date `n` days earlier, `None` when the input date is invalid or the
/// result falls outside chrono's range.
#[verifier::external_body]
pub fn sub_days(y: i32, m: u8, d: u8, n: u64) -> (r: Option<(i32, u8, u8)>)
    ensures
        match r {
            Some(t) => date_minus_days(y as int, m as int, d as int, n as int) == Some(
                (t.0 as int, t.1 as int, t.2 as int),
            ) && 1 <= t.1 <= 12 && 1 <= t.2 <= 31,
            None => date_minus_days(y as int, m as int, d as int, n as int) is None,
        },
{
    let date = chrono::NaiveDate::from_ymd_opt(y, m as u32, d as u32)?;
    let earlier = date.checked_sub_days(chrono::Days::new(n))?;
    Some(
        (
            chrono::Datelike::year(&earlier),
            chrono::Datelike::month(&earlier) as u8,
            chrono::Datelike::day(&earlier) as u8,
        ),
    )
}

/// Relies on chrono's FromStr for DateTime<Utc> and timestamp_millis: the
/// parsed timestamp in milliseconds, a function of the text alone.
#[verifier::external_body]
pub fn parse_datetime_utc_millis(s: &str) -> (r: Option<i64>)
    ensures
        match r {
            Some(m) => datetime_text_millis(s@) == Some(m as int),
            None => datetime_text_millis(s@) is None,
        },
{
    s.parse::<chrono::DateTime<chrono::Utc>>().ok().map(|d| d.timestamp_millis())
}

/// Relies on chrono::NaiveDateTime::parse_from_str and and_utc: the text
/// parsed against the pattern, interpreted as UTC, in milliseconds.
#[verifier::external_body]
pub fn parse_naive_utc_millis(s: &str, fmt: &str) -> (r: Option<i64>)
    ensures
        match r {
            Some(m) => naive_text_millis(s@, fmt@) == Some(m as int),
            None => naive_text_millis(s@, fmt@) is None,
        },
{
    chrono::NaiveDateTime::parse_from_str(s, fmt).ok().map(|n| n.and_utc().timestamp_millis())
}

/// Relies on chrono's Utc.timestamp_opt: a whole-second epoch value in
/// range maps to exactly that second, so the millisecond reading is a
/// thousandfold of it; out of range there is no single mapping.
#[verifier::external_body]
pub fn epoch_seconds_to_millis(n: i64) -> (r: Option<i64>)
    ensures
        match r {
            Some(m) => epoch_single_millis(n as int) == Some(m as int) && m == n * 1000,
            None => epoch_single_millis(n as int) is None,
        },
{
    chrono::TimeZone::timestamp_opt(&chrono::Utc, n, 0).single().map(|d| d.timestamp_millis())
}

} // verus!
