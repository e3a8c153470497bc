//! Calendar dates as day numbers (day 1 is January 1 of year 1 in the
//! proleptic Gregorian calendar, the numbering of chrono's
//! `Datelike::num_days_from_ce`), their weekdays, and the calls into chrono
//! that the logic makes: today's date, the current local time, parsing, and
//! the calendar fields and text of a date.
use crate::sort::SortKey;
use crate::text::{decimal, decimal2};
use chrono::{Datelike, Timelike};
use vstd::prelude::*;

verus! {

/// Smallest day number chrono represents (January 1, 262144 BCE).
pub const MIN_DAY: i32 = -95746129i32;

/// Largest day number chrono represents (December 31, 262142 CE).
pub const MAX_DAY: i32 = 95745399i32;

/// A calendar date, stored as its day number.
#[derive(Clone, Copy, Debug, PartialEq, Eq, Structural, PartialOrd, Ord, Hash)]
pub struct Date {
    pub day: i32,
}

impl Date {
    /// The day number lies in the range chrono can represent.
    pub open spec fn is_valid(self) -> bool {
        MIN_DAY <= self.day <= MAX_DAY
    }

    /// `date + Duration::days(n)`: the date `n` days later (earlier if `n` is
    /// negative). Panics in chrono when the result leaves the range, hence the
    /// requirement.
    pub fn add_days(self, n: i64) -> (r: Date)
        requires
            MIN_DAY <= self.day + n <= MAX_DAY,
        ensures
            r.day == self.day + n,
            r.is_valid(),
    {
        Date { day: (self.day as i64 + n) as i32 }
    }

    /// `(self - other).num_days()`: the number of days from `other` to `self`.
    pub fn days_since(self, other: Date) -> (r: i64)
        ensures
            r == self.day - other.day,
    {
        self.day as i64 - other.day as i64
    }

    pub fn is_before(self, other: Date) -> (r: bool)
        ensures
            r == (self.day < other.day),
    {
        self.day < other.day
    }
}

impl SortKey for Date {
    /// Dates sort by day number, earliest first.
    open spec fn key_lt(self, other: Self) -> bool {
        self.day < other.day
    }

    fn key_less(&self, other: &Self) -> (r: bool) {
        self.day < other.day
    }

    proof fn lemma_key_order(a: Self, b: Self, c: Self) {
    }
}

/// Wall-clock local date and time without zone: a date, the seconds since
/// midnight and the nanoseconds (chrono's `NaiveDateTime` fields).
#[derive(Clone, Copy, Debug, PartialEq, Eq, Structural)]
pub struct LocalDateTime {
    pub date: Date,
    pub seconds_from_midnight: u32,
    pub nanosecond: u32,
}

/// `chrono::Local::now().date_naive()`. Trusted: the result depends on the
/// clock and the time zone; only that it is a representable date is claimed.
#[verifier::external_body]
pub(crate) fn today() -> (r: Date)
    ensures
        r.is_valid(),
{
    Date { day: chrono::Local::now().date_naive().num_days_from_ce() }
}

/// `chrono::Local::now().naive_local()`. Trusted: the result depends on the
/// clock and the time zone; only that its date is representable is claimed.
#[verifier::external_body]
pub(crate) fn now_local() -> (r: LocalDateTime)
    ensures
        r.date.is_valid(),
{
    let now = chrono::Local::now().naive_local();
    LocalDateTime {
        date: Date { day: now.date().num_days_from_ce() },
        seconds_from_midnight: now.num_seconds_from_midnight(),
        nanosecond: now.nanosecond(),
    }
}

/// What `NaiveDate::parse_from_str(s, "%Y-%m-%d")` gives for `s` (as a day
/// number), or `None` when chrono rejects it.
pub uninterp spec fn parsed_ymd(s: Seq<char>) -> Option<Date>;

/// `NaiveDate::parse_from_str(s, "%Y-%m-%d").ok()`. Trusted: the result is
/// chrono's parse, named `parsed_ymd`, and a parsed date is representable.
#[verifier::external_body]
pub(crate) fn parse_ymd(s: &str) -> (r: Option<Date>)
    ensures
        r == parsed_ymd(s@),
        r matches Some(d) ==> d.is_valid(),
{
    chrono::NaiveDate::parse_from_str(s, "%Y-%m-%d").ok().map(|d| Date { day: d.num_days_from_ce() })
}

/// The weekday of a day number, counted from Sunday (Sunday = 0, ...,
/// Saturday = 6): day 1, January 1 of year 1, is a Monday, and the weekdays
/// repeat every seven days.
pub open spec fn weekday_number(day: int) -> int {
    day % 7
}

/// `date.weekday().num_days_from_sunday()`: the weekday of a date, counted
/// from Sunday.
pub(crate) fn weekday_from_sunday(d: Date) -> (r: u32)
    requires
        d.is_valid(),
    ensures
        r == weekday_number(d.day as int),
        r < 7,
{
    // Counted from the first representable day, a Thursday (4).
    let x: i64 = d.day as i64 - MIN_DAY as i64;
    let r = ((x + 4) % 7) as u32;
    proof {
        let day = d.day as int;
        assert(day == 7 * (-13678019) + (x + 4));
        vstd::arithmetic::div_mod::lemma_mod_multiples_vanish(-13678019, x + 4, 7);
    }
    r
}

/// What `(date.year(), date.month(), date.day())` is for a day number.
pub uninterp spec fn calendar_fields(day: int) -> (i32, u32, u32);

/// `(date.year(), date.month(), date.day())`. Trusted: the result is chrono's
/// calendar fields, named `calendar_fields`; months count from 1 to 12 and
/// days from 1 to 31.
#[verifier::external_body]
pub(crate) fn year_month_day(d: Date) -> (r: (i32, u32, u32))
    requires
        d.is_valid(),
    ensures
        r == calendar_fields(d.day as int),
        1 <= r.1 <= 12,
        1 <= r.2 <= 31,
{
    let n = chrono::NaiveDate::from_num_days_from_ce_opt(d.day).unwrap();
    (n.year(), n.month(), n.day())
}

/// `n` in decimal, left-padded with `0` to at least four digits.
pub open spec fn decimal4(n: nat) -> Seq<char> {
    let d = decimal(n);
    if d.len() < 4 {
        Seq::new((4 - d.len()) as nat, |i: int| '0') + d
    } else {
        d
    }
}

/// chrono's `%Y`: a year from 0 to 9999 as four digits, any other year with
/// its sign (`+` or `-`) before at least four digits.
pub open spec fn year_text(y: int) -> Seq<char> {
    if 0 <= y <= 9999 {
        decimal4(y as nat)
    } else if y < 0 {
        "-"@ + decimal4((-y) as nat)
    } else {
        "+"@ + decimal4(y as nat)
    }
}

/// `date.format("%Y-%m-%d").to_string()` for a day number: the year as `%Y`
/// gives it, then the month and the day as two digits each, joined by `-`.
pub open spec fn ymd_text(day: int) -> Seq<char> {
    let (y, m, d) = calendar_fields(day);
    year_text(y as int) + "-"@ + decimal2(m as nat) + "-"@ + decimal2(d as nat)
}

/// `date.format("%Y-%m-%d").to_string()`. Trusted: the result is chrono's
/// rendering of the date's calendar fields (the same fields `year_month_day`
/// gives): `%Y` writes the year with four digits, and with a sign when it
/// lies outside 0..=9999; `%m` and `%d` write two digits each.
#[verifier::external_body]
pub(crate) fn format_ymd(d: Date) -> (r: String)
    requires
        d.is_valid(),
    ensures
        r@ == ymd_text(d.day as int),
{
    chrono::NaiveDate::from_num_days_from_ce_opt(d.day).unwrap().format("%Y-%m-%d").to_string()
}

} // verus!
