//! A validated, inclusive, ordered pair of calendar dates, built from two
//! `YYYY-MM-DD` strings, and the ordered sequence of days it spans.

use vstd::prelude::*;

use crate::calendar_date::{CalendarDate, date_of_str, MAX_DAY_NUMBER, MIN_DAY_NUMBER};

verus! {

/// An inclusive range of calendar days; a built range always has
/// `start <= end`.
#[derive(Clone, Copy, Debug, PartialEq, Eq, Structural)]
pub struct DateRange {
    pub start: CalendarDate,
    pub end: CalendarDate,
}

/// Why two strings made no date range.
#[derive(Clone, Debug)]
pub enum DateRangeError {
    /// The first string is not a `YYYY-MM-DD` date; it is carried as given.
    StartDateFormatWrong(String),
    /// The second string is not a `YYYY-MM-DD` date; it is carried as given.
    EndDateFormatWrong(String),
    /// Both strings parsed, but the first date falls after the second.
    StartDateAfterEndDate(CalendarDate, CalendarDate),
}

impl DateRange {
    /// Start no later than end, both within the day numbers dates can have.
    pub open spec fn wf(self) -> bool {
        &&& self.start.wf()
        &&& self.end.wf()
        &&& self.start.day_number <= self.end.day_number
    }

    /// How many days the range spans, both ends counted.
    pub open spec fn spec_len(self) -> int {
        self.end.day_number - self.start.day_number + 1
    }

    /// The days of the range in ascending order: day `i` of the sequence
    /// lies `i` days after the start.
    pub open spec fn spec_days(self) -> Seq<CalendarDate> {
        Seq::new(self.spec_len() as nat, |i: int| CalendarDate {
            day_number: (self.start.day_number + i) as i64,
        })
    }

    /// Every day from start to end inclusive, ascending, one day apart:
    /// a range whose start equals its end yields exactly that one day.
    pub fn days(&self) -> (r: Vec<CalendarDate>)
        requires
            self.wf(),
        ensures
            r@ == self.spec_days(),
            r@.len() == self.spec_len(),
    {
        let mut r: Vec<CalendarDate> = Vec::new();
        let mut day: i64 = self.start.day_number;
        while day <= self.end.day_number
            invariant
                self.wf(),
                self.start.day_number <= day <= self.end.day_number + 1,
                r@.len() == day - self.start.day_number,
                forall|i: int|
                    0 <= i < r@.len() ==> r@[i] == (CalendarDate {
                        day_number: (self.start.day_number + i) as i64,
                    }),
            decreases self.end.day_number - day + 1,
        {
            r.push(CalendarDate { day_number: day });
            day = day + 1;
        }
        proof {
            assert(r@ =~= self.spec_days());
        }
        r
    }

    /// A fresh cursor over the days of the range, starting at `start`.
    pub fn days_cursor(&self) -> (r: DaysCursor)
        requires
            self.wf(),
        ensures
            r.wf(),
            r.remaining() == self.spec_days(),
    {
        let r = DaysCursor { next_day: self.start.day_number, last_day: self.end.day_number };
        proof {
            assert(r.remaining() =~= self.spec_days());
        }
        r
    }
}

/// Builds a range from two `YYYY-MM-DD` strings. The start string is read
/// first and reported first when it is malformed; only when both strings
/// parse is their order checked.
pub fn build_date_range(start_raw: &str, end_raw: &str) -> (r: Result<DateRange, DateRangeError>)
    ensures
        match r {
            Ok(range) => {
                &&& range.wf()
                &&& date_of_str(start_raw@) == Some(range.start.day_number as int)
                &&& date_of_str(end_raw@) == Some(range.end.day_number as int)
            },
            Err(e) => match e {
                DateRangeError::StartDateFormatWrong(raw) => {
                    &&& date_of_str(start_raw@) is None
                    &&& raw@ == start_raw@
                },
                DateRangeError::EndDateFormatWrong(raw) => {
                    &&& date_of_str(start_raw@) is Some
                    &&& date_of_str(end_raw@) is None
                    &&& raw@ == end_raw@
                },
                DateRangeError::StartDateAfterEndDate(start, end) => {
                    &&& date_of_str(start_raw@) == Some(start.day_number as int)
                    &&& date_of_str(end_raw@) == Some(end.day_number as int)
                    &&& start.day_number > end.day_number
                },
            },
        },
        (r is Ok) <==> {
            &&& date_of_str(start_raw@) is Some
            &&& date_of_str(end_raw@) is Some
            &&& date_of_str(start_raw@).unwrap() <= date_of_str(end_raw@).unwrap()
        },
{
    let start = match CalendarDate::parse(start_raw) {
        Some(d) => d,
        None => {
            return Err(DateRangeError::StartDateFormatWrong(start_raw.to_owned()));
        },
    };
    let end = match CalendarDate::parse(end_raw) {
        Some(d) => d,
        None => {
            return Err(DateRangeError::EndDateFormatWrong(end_raw.to_owned()));
        },
    };
    if start.day_number > end.day_number {
        Err(DateRangeError::StartDateAfterEndDate(start, end))
    } else {
        Ok(DateRange { start, end })
    }
}

/// The sequence of days of a range spans it exactly: its length is the
/// number of days from start to end with both ends counted, its first day
/// is the start, its last day the end, and each day lies one day after the
/// day before it — no gaps and no duplicates.
pub proof fn lemma_days_of_range(range: DateRange)
    requires
        range.wf(),
    ensures
        range.spec_days().len() == range.spec_len(),
        range.spec_len() == range.end.day_number - range.start.day_number + 1,
        range.spec_days().first() == range.start,
        range.spec_days().last() == range.end,
        forall|i: int|
            0 < i < range.spec_days().len() ==> (#[trigger] range.spec_days()[i]).day_number
                == range.spec_days()[i - 1].day_number + 1,
{
}

/// Hands out the days of a range one at a time, in ascending order,
/// without holding more than its two bounds.
#[derive(Clone, Copy, Debug)]
pub struct DaysCursor {
    /// The next day to hand out; past `last_day` once the cursor is done.
    pub next_day: i64,
    /// The last day to hand out.
    pub last_day: i64,
}

impl DaysCursor {
    pub open spec fn wf(self) -> bool {
        &&& MIN_DAY_NUMBER <= self.next_day <= MAX_DAY_NUMBER + 1
        &&& MIN_DAY_NUMBER <= self.last_day <= MAX_DAY_NUMBER
    }

    /// The days the cursor has not handed out yet, in the order it will
    /// hand them out.
    pub open spec fn remaining(self) -> Seq<CalendarDate> {
        if self.next_day <= self.last_day {
            Seq::new((self.last_day - self.next_day + 1) as nat, |i: int| CalendarDate {
                day_number: (self.next_day + i) as i64,
            })
        } else {
            Seq::empty()
        }
    }

    /// The first day not yet handed out, or nothing once all days are out.
    pub fn next(&mut self) -> (r: Option<CalendarDate>)
        requires
            old(self).wf(),
        ensures
            final(self).wf(),
            old(self).remaining().len() > 0 ==> {
                &&& r == Some(old(self).remaining()[0])
                &&& final(self).remaining() == old(self).remaining().drop_first()
            },
            old(self).remaining().len() == 0 ==> {
                &&& r is None
                &&& final(self).remaining() == old(self).remaining()
            },
    {
        if self.next_day <= self.last_day {
            let day = CalendarDate { day_number: self.next_day };
            self.next_day = self.next_day + 1;
            proof {
                assert(self.remaining() =~= old(self).remaining().drop_first());
            }
            Some(day)
        } else {
            None
        }
    }
}

} // verus!
