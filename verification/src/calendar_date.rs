//! A calendar day of the proleptic Gregorian calendar, held as its day
//! number counted from the Common Era (`0001-01-01` is day 1, `0000-12-31`
//! is day 0). Ordering, stepping to the next day and the day of the week
//! are plain arithmetic on that number; only turning a `YYYY-MM-DD` string
//! into a day number is left to a date library.

use vstd::prelude::*;

use crate::weekday::Weekday;

verus! {

/// Smallest day number a parsed date can have (January 1, 262145 BCE lies
/// above -96 million days from the Common Era).
pub const MIN_DAY_NUMBER: i64 = -100_000_000;

/// Largest day number a parsed date can have (December 31, 262142 CE lies
/// below 96 million days from the Common Era).
pub const MAX_DAY_NUMBER: i64 = 100_000_000;

/// One day of the proleptic Gregorian calendar.
#[derive(Clone, Copy, Debug, PartialEq, Eq, Structural)]
pub struct CalendarDate {
    /// Day number counted from the Common Era: `0001-01-01` is day 1.
    pub day_number: i64,
}

/// What `parse_date` returns on a given string: the day number of the date
/// the string names in `YYYY-MM-DD` form, or nothing where the string is
/// not of that form or names no real calendar day.
pub uninterp spec fn date_of_str(s: Seq<char>) -> Option<int>;

/// Relies on `chrono::NaiveDate::parse_from_str` with format `%Y-%m-%d`
/// and on `chrono::Datelike::num_days_from_ce`: what is parsed depends on
/// the characters alone, and every date `chrono` can represent lies
/// between January 1, 262145 BCE and December 31, 262142 CE, well within
/// 100 million days of the Common Era in either direction.
#[verifier::external_body]
fn parse_day_number(s: &str) -> (r: Option<i64>)
    ensures
        match r {
            Some(n) => date_of_str(s@) == Some(n as int) && MIN_DAY_NUMBER <= n <= MAX_DAY_NUMBER,
            None => date_of_str(s@) is None,
        },
{
    match chrono::NaiveDate::parse_from_str(s, "%Y-%m-%d") {
        Ok(date) => Some(chrono::Datelike::num_days_from_ce(&date) as i64),
        Err(_) => None,
    }
}

impl CalendarDate {
    /// The day numbers the date library can produce; every date built by
    /// this crate keeps its day number in these bounds.
    pub open spec fn wf(self) -> bool {
        MIN_DAY_NUMBER <= self.day_number <= MAX_DAY_NUMBER
    }

    pub fn from_day_number(day_number: i64) -> (r: CalendarDate)
        requires
            MIN_DAY_NUMBER <= day_number <= MAX_DAY_NUMBER,
        ensures
            r.day_number == day_number,
            r.wf(),
    {
        CalendarDate { day_number }
    }

    /// Reads a date from a `YYYY-MM-DD` string.
    pub fn parse(s: &str) -> (r: Option<CalendarDate>)
        ensures
            match r {
                Some(d) => date_of_str(s@) == Some(d.day_number as int) && d.wf(),
                None => date_of_str(s@) is None,
            },
    {
        match parse_day_number(s) {
            Some(n) => Some(CalendarDate { day_number: n }),
            None => None,
        }
    }

    /// Day of the week of this date. Day 1 of the Common Era,
    /// `0001-01-01`, is a Monday, so the position of the weekday counted
    /// from Monday is the day number less one, modulo seven.
    pub open spec fn spec_day_of_week(self) -> int {
        (self.day_number - 1) % 7
    }

    /// The day of the week as a value of this crate's `Weekday`.
    pub open spec fn spec_weekday(self) -> Weekday {
        crate::weekday::weekday_from_index(self.spec_day_of_week())
    }

    pub fn day_of_week(self) -> (r: Weekday)
        requires
            self.wf(),
        ensures
            r == self.spec_weekday(),
            r.spec_day_index() == self.spec_day_of_week(),
    {
        let m: i64 = (self.day_number - 1) % 7;
        let i: i64 = if m < 0 {
            m + 7
        } else {
            m
        };
        proof {
            assert(i == (self.day_number - 1) % 7);
        }
        Weekday::from_day_index(i as u8)
    }

    /// The day after this one.
    pub fn next_day(self) -> (r: CalendarDate)
        requires
            self.day_number < MAX_DAY_NUMBER,
        ensures
            r.day_number == self.day_number + 1,
    {
        CalendarDate { day_number: self.day_number + 1 }
    }
}

} // verus!
