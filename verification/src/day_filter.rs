//! The fixed day filter: Saturday and Sunday are always the removed set,
//! and a date is accepted exactly when its weekday is not in that set.

use vstd::prelude::*;

use crate::calendar_date::CalendarDate;
use crate::date_range::{DateRange, DaysCursor};
use crate::filtering::{kept_dates, lemma_kept_dates_skip_step};
use crate::weekday::Weekday;

verus! {

/// The stateless weekend-excluding filter.
#[derive(Clone, Copy, Debug, PartialEq, Eq, Structural)]
pub struct DayFilter {}

impl Default for DayFilter {
    fn default() -> (r: Self)
        ensures
            r == (DayFilter {  }),
    {
        DayFilter {  }
    }
}

/// The decision the weekend-excluding filter makes for each weekday.
pub open spec fn weekend_excluded() -> spec_fn(Weekday) -> bool {
    |day: Weekday| day != Weekday::Sat && day != Weekday::Sun
}

impl DayFilter {
    /// Accepted means: not in the removed set.
    pub open spec fn spec_accepts(self, day: Weekday) -> bool {
        weekend_excluded()(day)
    }

    pub fn accepts(&self, day: Weekday) -> (r: bool)
        ensures
            r == self.spec_accepts(day),
    {
        !(day == Weekday::Sat || day == Weekday::Sun)
    }

    /// The days this filter removes: always Saturday and Sunday.
    pub fn removed_days(&self) -> (r: Vec<Weekday>)
        ensures
            r@ == seq![Weekday::Sat, Weekday::Sun],
            forall|day: Weekday| self.spec_accepts(day) <==> !r@.contains(day),
    {
        let r = vec![Weekday::Sat, Weekday::Sun];
        proof {
            assert(r@ =~= seq![Weekday::Sat, Weekday::Sun]);
            assert(forall|day: Weekday| #[trigger]
                r@.contains(day) <==> (day == Weekday::Sat || day == Weekday::Sun)) by {
                assert(r@[0] == Weekday::Sat);
                assert(r@[1] == Weekday::Sun);
            }
        }
        r
    }

    /// The sub-sequence of the given dates, in order, that fall on no
    /// weekend day.
    pub fn filter_days_list(&self, dates: &Vec<CalendarDate>) -> (r: Vec<CalendarDate>)
        requires
            forall|i: int| 0 <= i < dates@.len() ==> (#[trigger] dates@[i]).wf(),
        ensures
            r@ == kept_dates(dates@, weekend_excluded()),
    {
        let mut r: Vec<CalendarDate> = Vec::new();
        let mut i: usize = 0;
        proof {
            assert(dates@.skip(0) =~= dates@);
            assert(r@ + kept_dates(dates@, weekend_excluded()) =~= kept_dates(
                dates@,
                weekend_excluded(),
            ));
        }
        while i < dates.len()
            invariant
                0 <= i <= dates@.len(),
                forall|k: int| 0 <= k < dates@.len() ==> (#[trigger] dates@[k]).wf(),
                kept_dates(dates@, weekend_excluded()) == r@ + kept_dates(
                    dates@.skip(i as int),
                    weekend_excluded(),
                ),
            decreases dates@.len() - i,
        {
            proof {
                lemma_kept_dates_skip_step(dates@, weekend_excluded(), i as int);
            }
            let date = dates[i];
            if self.accepts(date.day_of_week()) {
                r.push(date);
                proof {
                    assert(kept_dates(dates@, weekend_excluded()) =~= r@ + kept_dates(
                        dates@.skip(i as int + 1),
                        weekend_excluded(),
                    ));
                }
            }
            i = i + 1;
        }
        proof {
            assert(dates@.skip(dates@.len() as int) =~= Seq::empty());
            assert(r@ =~= kept_dates(dates@, weekend_excluded()));
        }
        r
    }
}

/// Any seven consecutive days meet each day of the week exactly once, so
/// the weekend-excluding filter keeps exactly five of them: the dates
/// falling on neither Saturday nor Sunday, in their original order.
pub proof fn lemma_full_week_keeps_five_days(range: DateRange)
    requires
        range.wf(),
        range.spec_len() == 7,
    ensures
        kept_dates(range.spec_days(), weekend_excluded()).len() == 5,
{
    let s = range.spec_days();
    let p = weekend_excluded();
    let start = range.start.day_number as int;
    let m = (start - 1) % 7;
    assert(0 <= m < 7) by {
        vstd::arithmetic::div_mod::lemma_mod_bound(start - 1, 7);
    }
    assert forall|i: int| 0 <= i < 7 implies (#[trigger] s[i]).spec_day_of_week() == if m + i < 7 {
        m + i
    } else {
        m + i - 7
    } by {
        assert(s[i].day_number == start + i);
        vstd::arithmetic::div_mod::lemma_add_mod_noop(start - 1, i, 7);
        assert(i % 7 == i) by {
            vstd::arithmetic::div_mod::lemma_small_mod(i as nat, 7);
        }
        assert((start + i - 1) % 7 == (m + i) % 7);
        if m + i < 7 {
            vstd::arithmetic::div_mod::lemma_small_mod((m + i) as nat, 7);
        } else {
            vstd::arithmetic::div_mod::lemma_mod_sub_multiples_vanish(m + i, 7);
            vstd::arithmetic::div_mod::lemma_small_mod((m + i - 7) as nat, 7);
        }
    }
    assert(s.skip(7) =~= Seq::empty());
    lemma_kept_dates_skip_step(s, p, 6);
    lemma_kept_dates_skip_step(s, p, 5);
    lemma_kept_dates_skip_step(s, p, 4);
    lemma_kept_dates_skip_step(s, p, 3);
    lemma_kept_dates_skip_step(s, p, 2);
    lemma_kept_dates_skip_step(s, p, 1);
    lemma_kept_dates_skip_step(s, p, 0);
    assert(s.skip(0) =~= s);
    assert forall|i: int| 0 <= i < 7 implies (p((#[trigger] s[i]).spec_weekday()) <==> (
    s[i].spec_day_of_week() != 5 && s[i].spec_day_of_week() != 6)) by {
        assert(0 <= s[i].spec_day_of_week() < 7) by {
            vstd::arithmetic::div_mod::lemma_mod_bound(s[i].day_number - 1, 7);
        }
    }
    assert(kept_dates(s, p).len() == 5);
}

/// Hands out, one at a time and in order, the days of a range that the
/// weekend-excluding filter keeps; reads one inner day per step.
#[derive(Clone, Copy, Debug)]
pub struct FilterDaysIterator {
    pub iterator: DaysCursor,
    pub filter: DayFilter,
}

impl FilterDaysIterator {
    pub open spec fn wf(self) -> bool {
        self.iterator.wf()
    }

    /// The dates the iterator has yet to hand out.
    pub open spec fn remaining_kept(self) -> Seq<CalendarDate> {
        kept_dates(self.iterator.remaining(), weekend_excluded())
    }

    /// The first not-yet-seen date that the filter keeps, or nothing once
    /// no kept date is left.
    pub fn next(&mut self) -> (r: Option<CalendarDate>)
        requires
            old(self).wf(),
        ensures
            final(self).wf(),
            final(self).filter == old(self).filter,
            match r {
                Some(date) => {
                    &&& old(self).remaining_kept().len() > 0
                    &&& date == old(self).remaining_kept()[0]
                    &&& final(self).remaining_kept() == old(self).remaining_kept().drop_first()
                },
                None => {
                    &&& old(self).remaining_kept().len() == 0
                    &&& final(self).remaining_kept().len() == 0
                },
            },
    {
        loop
            invariant
                self.wf(),
                self.filter == old(self).filter,
                self.remaining_kept() == old(self).remaining_kept(),
            decreases self.iterator.remaining().len(),
        {
            let ghost before = self.iterator.remaining();
            match self.iterator.next() {
                None => {
                    return None;
                },
                Some(date) => {
                    proof {
                        lemma_kept_dates_skip_step(before, weekend_excluded(), 0);
                        assert(before.skip(0) =~= before);
                        assert(before.skip(1) =~= before.drop_first());
                    }
                    if self.filter.accepts(date.day_of_week()) {
                        proof {
                            assert(kept_dates(before, weekend_excluded()) == seq![date]
                                + self.remaining_kept());
                            assert(kept_dates(before, weekend_excluded())[0] == date);
                            assert((seq![date] + self.remaining_kept()).drop_first()
                                =~= self.remaining_kept());
                        }
                        return Some(date);
                    }
                },
            }
        }
    }

    /// Drains the iterator: every date it would hand out, in order.
    pub fn collect_days(&mut self) -> (r: Vec<CalendarDate>)
        requires
            old(self).wf(),
        ensures
            final(self).wf(),
            r@ == old(self).remaining_kept(),
            final(self).remaining_kept().len() == 0,
    {
        let mut r: Vec<CalendarDate> = Vec::new();
        loop
            invariant
                self.wf(),
                old(self).remaining_kept() == r@ + self.remaining_kept(),
            decreases self.remaining_kept().len(),
        {
            match self.next() {
                None => {
                    proof {
                        assert(r@ =~= old(self).remaining_kept());
                    }
                    return r;
                },
                Some(date) => {
                    r.push(date);
                    proof {
                        assert(old(self).remaining_kept() =~= r@ + self.remaining_kept());
                    }
                },
            }
        }
    }
}

/// Lets a day cursor be filtered in place by the weekend-excluding filter.
pub trait FilterDays where Self: Sized {
    /// Wraps the sequence so that only dates kept by the filter come out.
    fn filter_days(self, day_filter: &DayFilter) -> FilterDaysIterator;
}

impl FilterDays for DaysCursor {
    fn filter_days(self, day_filter: &DayFilter) -> (r: FilterDaysIterator)
        ensures
            r.iterator == self,
            r.filter == *day_filter,
    {
        FilterDaysIterator { iterator: self, filter: *day_filter }
    }
}

} // verus!
