//! Calendar days.
//!
//! A `Date` is a day of the proleptic Gregorian calendar, held as its day number:
//! January 1 of year 1 is day 1, December 31 of year 0 is day 0, and so on.
//! Calendar work (today's date, weekdays, adding days, text forms) is done by `chrono`.
use chrono::Datelike;
use vstd::prelude::*;

verus! {

/// Day number of the earliest date `chrono` can represent (January 1, 262144 BCE).
pub const MIN_DAY: i32 = -95746129i32;

/// Day number of the latest date `chrono` can represent (December 31, 262142 CE).
pub const MAX_DAY: i32 = 95745399i32;

/// Whether `n` is the day number of a representable date.
pub open spec fn in_range(n: int) -> bool {
    MIN_DAY <= n <= MAX_DAY
}

/// Day of the week of day number `n`: Monday is 0, Sunday is 6.
/// Day 1 (January 1 of year 1) was a Monday.
pub open spec fn weekday_index(n: int) -> int {
    (n - 1) % 7
}

/// The Monday of the week that holds day `n`.
pub open spec fn monday_on_or_before(n: int) -> int {
    n - weekday_index(n)
}

/// The text `chrono` writes for the date with day number `n`: `YYYY-MM-DD` for the years 0 to
/// 9999, with an explicit sign and more digits for the years outside.
pub uninterp spec fn date_text(n: int) -> Seq<char>;

/// The text `chrono` writes for the date with day number `n` in the format `%b %d`: the
/// abbreviated English month name and the zero-padded day of the month, such as `Jan 06`.
pub uninterp spec fn month_day_text(n: int) -> Seq<char>;

/// The day number `chrono` reads from `s` in the format `%Y-%m-%d`, if `s` is a valid date there.
pub uninterp spec fn date_parse(s: Seq<char>) -> Option<int>;

/// The day number of the given year, month and day, if that date exists and is representable.
pub uninterp spec fn calendar_day(year: i32, month: u32, day: u32) -> Option<int>;

/// A calendar day, held as its day number, which always lies between `MIN_DAY` and `MAX_DAY`.
/// The items below that call `chrono` and give back a `Date` rely on every `chrono` date
/// lying in that range.
#[derive(Clone, Copy, Debug, PartialEq, Eq, Structural)]
pub struct Date {
    days: i32,
}

impl Date {
    #[verifier::type_invariant]
    spec fn representable(self) -> bool {
        in_range(self.days as int)
    }
}

impl View for Date {
    type V = int;

    closed spec fn view(&self) -> int {
        self.days as int
    }
}

impl Date {
    /// The day number of this date.
    pub fn days(&self) -> (r: i32)
        ensures
            r == self@,
            in_range(r as int),
    {
        proof {
            use_type_invariant(self);
        }
        self.days
    }

    /// The date with day number `n`, if it is representable.
    pub fn from_days(n: i32) -> (r: Option<Date>)
        ensures
            r is Some <==> in_range(n as int),
            r matches Some(d) ==> d@ == n,
    {
        if MIN_DAY <= n && n <= MAX_DAY {
            Some(Date { days: n })
        } else {
            None
        }
    }

    /// The date of the given year, month and day, if it exists.
    pub fn from_ymd(year: i32, month: u32, day: u32) -> (r: Option<Date>)
        ensures
            match r {
                Some(d) => calendar_day(year, month, day) == Some(d@),
                None => calendar_day(year, month, day) is None,
            },
    {
        ymd_date(year, month, day)
    }
}

/// Calls `chrono::NaiveDate::from_ymd_opt`; the day number of the result is the name
/// `calendar_day` applied to the arguments, and `None` where `chrono` finds no such date.
#[verifier::external_body]
fn ymd_date(year: i32, month: u32, day: u32) -> (r: Option<Date>)
    ensures
        match r {
            Some(d) => calendar_day(year, month, day) == Some(d@),
            None => calendar_day(year, month, day) is None,
        },
{
    match chrono::NaiveDate::from_ymd_opt(year, month, day) {
        Some(nd) => Some(Date { days: nd.num_days_from_ce() }),
        None => None,
    }
}

/// Calls `chrono::Utc::now().date_naive()`: today's date in UTC.
/// Nothing is said of which day it is, only that it is a representable date.
#[verifier::external_body]
pub(crate) fn current_date() -> (r: Date) {
    Date { days: chrono::Utc::now().date_naive().num_days_from_ce() }
}

/// Calls `chrono::Datelike::weekday` and `chrono::Weekday::num_days_from_monday`:
/// Monday is 0, and the weekday advances by one with each day, day 1 being a Monday.
#[verifier::external_body]
pub(crate) fn weekday_from_monday(d: Date) -> (r: u32)
    ensures
        r == weekday_index(d@),
{
    let nd = chrono::NaiveDate::from_num_days_from_ce_opt(d.days).expect("representable date");
    nd.weekday().num_days_from_monday()
}

/// Calls `NaiveDate + chrono::Duration::days(n)`: the date `n` days later (earlier for negative `n`).
/// `chrono` panics where the result is not representable, which `requires` leaves out.
#[verifier::external_body]
pub(crate) fn add_days(d: Date, n: i64) -> (r: Date)
    requires
        in_range(d@ + n),
    ensures
        r@ == d@ + n,
{
    let nd = chrono::NaiveDate::from_num_days_from_ce_opt(d.days).expect("representable date");
    Date { days: (nd + chrono::Duration::days(n)).num_days_from_ce() }
}

/// Calls `ToString::to_string` on a `chrono::NaiveDate`: its text is the name `date_text`
/// applied to the day number.
#[verifier::external_body]
pub(crate) fn date_to_text(d: Date) -> (r: String)
    ensures
        r@ == date_text(d@),
{
    let nd = chrono::NaiveDate::from_num_days_from_ce_opt(d.days).expect("representable date");
    nd.to_string()
}

/// Calls `chrono::NaiveDate::format("%b %d")` and `ToString::to_string`: the text is the name
/// `month_day_text` applied to the day number.
#[verifier::external_body]
pub(crate) fn date_to_month_day(d: Date) -> (r: String)
    ensures
        r@ == month_day_text(d@),
{
    let nd = chrono::NaiveDate::from_num_days_from_ce_opt(d.days).expect("representable date");
    nd.format("%b %d").to_string()
}

/// Calls `chrono::NaiveDate::parse_from_str(s, "%Y-%m-%d")`. The result is the name `date_parse`
/// applied to `s`; and the text that `chrono` writes for any date reads back as that same date
/// (`%Y` reads four digits, or a signed year of any length).
#[verifier::external_body]
pub(crate) fn date_from_text(s: &str) -> (r: Option<Date>)
    ensures
        match r {
            Some(d) => date_parse(s@) == Some(d@),
            None => date_parse(s@) is None,
        },
        forall|n: int| #![trigger date_text(n)]
            in_range(n) && s@ == date_text(n) ==> r.is_some() && r.unwrap()@ == n,
{
    match chrono::NaiveDate::parse_from_str(s, "%Y-%m-%d") {
        Ok(nd) => Some(Date { days: nd.num_days_from_ce() }),
        Err(_) => None,
    }
}

} // verus!
