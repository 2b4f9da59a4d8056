//! The toggleable day filter: it holds the set of currently accepted
//! weekdays, Monday to Friday at first, and `toggle` flips one weekday's
//! membership, returning a new filter and leaving the old one as it was.

use vstd::prelude::*;

use crate::calendar_date::CalendarDate;
use crate::date_range::DaysCursor;
use crate::filtering::{kept_dates, lemma_kept_dates_skip_step};
use crate::weekday::{spec_week, week, Weekday};

verus! {

/// Which weekdays a filter with the given membership accepts: day `d` is
/// accepted when the entry at its position counted from Monday is set.
pub open spec fn chosen_days(accepted: Seq<bool>) -> spec_fn(Weekday) -> bool {
    |day: Weekday| accepted[day.spec_day_index()]
}

/// The membership with one weekday's entry flipped.
pub open spec fn spec_toggle(accepted: Seq<bool>, day: Weekday) -> Seq<bool> {
    accepted.update(day.spec_day_index(), !accepted[day.spec_day_index()])
}

/// A filter that accepts the weekdays in its current set.
#[derive(Debug)]
pub struct WeekDayFilter {
    /// Membership of each weekday, at its position counted from Monday.
    pub accepted: Vec<bool>,
}

impl Default for WeekDayFilter {
    /// The default set accepts Monday through Friday.
    fn default() -> (r: Self)
        ensures
            r.wf(),
            forall|day: Weekday| #[trigger]
                r.spec_accepts(day) <==> (day != Weekday::Sat && day != Weekday::Sun),
    {
        let accepted = vec![true, true, true, true, true, false, false];
        let r = WeekDayFilter { accepted };
        proof {
            assert(r.accepted@.len() == 7);
            assert(forall|day: Weekday| #[trigger]
                r.spec_accepts(day) <==> (day != Weekday::Sat && day != Weekday::Sun)) by {
                assert(r.accepted@[0]);
                assert(r.accepted@[1]);
                assert(r.accepted@[2]);
                assert(r.accepted@[3]);
                assert(r.accepted@[4]);
                assert(!r.accepted@[5]);
                assert(!r.accepted@[6]);
            }
        }
        r
    }
}

impl Clone for WeekDayFilter {
    fn clone(&self) -> (r: Self)
        ensures
            r.accepted@ == self.accepted@,
    {
        WeekDayFilter { accepted: self.accepted.clone() }
    }
}

impl WeekDayFilter {
    /// One membership entry per weekday.
    pub open spec fn wf(self) -> bool {
        self.accepted@.len() == 7
    }

    /// Accepted means: the day is in the current set.
    pub open spec fn spec_accepts(self, day: Weekday) -> bool {
        chosen_days(self.accepted@)(day)
    }

    pub fn accepts(&self, day: Weekday) -> (r: bool)
        requires
            self.wf(),
        ensures
            r == self.spec_accepts(day),
    {
        let i = day.day_index();
        self.accepted[i as usize]
    }

    /// The currently accepted weekdays, Monday first.
    pub fn accepted_days(&self) -> (r: Vec<Weekday>)
        requires
            self.wf(),
        ensures
            r@ == kept_weekdays(spec_week(), chosen_days(self.accepted@)),
            forall|day: Weekday| #[trigger] r@.contains(day) <==> self.spec_accepts(day),
    {
        let days = week();
        let mut r: Vec<Weekday> = Vec::new();
        let mut i: usize = 0;
        proof {
            assert(days@.skip(0) =~= days@);
            assert(r@ + kept_weekdays(days@, chosen_days(self.accepted@)) =~= kept_weekdays(
                days@,
                chosen_days(self.accepted@),
            ));
        }
        while i < days.len()
            invariant
                0 <= i <= days@.len(),
                self.wf(),
                days@ == spec_week(),
                kept_weekdays(days@, chosen_days(self.accepted@)) == r@ + kept_weekdays(
                    days@.skip(i as int),
                    chosen_days(self.accepted@),
                ),
            decreases days@.len() - i,
        {
            proof {
                lemma_kept_weekdays_skip_step(days@, chosen_days(self.accepted@), i as int);
            }
            let day = days[i];
            if self.accepts(day) {
                r.push(day);
                proof {
                    assert(kept_weekdays(days@, chosen_days(self.accepted@)) =~= r@
                        + kept_weekdays(days@.skip(i as int + 1), chosen_days(self.accepted@)));
                }
            }
            i = i + 1;
        }
        proof {
            assert(days@.skip(days@.len() as int) =~= Seq::<Weekday>::empty());
            assert(r@ =~= kept_weekdays(spec_week(), chosen_days(self.accepted@)));
            lemma_kept_weekdays_complete(spec_week(), chosen_days(self.accepted@));
            assert(forall|day: Weekday| spec_week().contains(day)) by {
                assert(forall|day: Weekday| #[trigger]
                    day.spec_day_index() == spec_week()[day.spec_day_index()].spec_day_index()
                        && spec_week()[day.spec_day_index()] == day);
            }
        }
        r
    }

    /// Flips one weekday's membership: a day in the set leaves it, a day
    /// out of it enters. The filter toggled is unchanged; a new value
    /// carries the change.
    pub fn toggle(self, day: Weekday) -> (r: WeekDayFilter)
        requires
            self.wf(),
        ensures
            r.wf(),
            r.accepted@ == spec_toggle(self.accepted@, day),
            forall|d: Weekday| #[trigger]
                r.spec_accepts(d) == if d == day {
                    !self.spec_accepts(d)
                } else {
                    self.spec_accepts(d)
                },
    {
        let i = day.day_index() as usize;
        let currently_in = self.accepted[i];
        let mut accepted = self.accepted;
        accepted.set(i, !currently_in);
        let r = WeekDayFilter { accepted };
        proof {
            assert(forall|d: Weekday| #[trigger]
                r.spec_accepts(d) == if d == day {
                    !self.spec_accepts(d)
                } else {
                    self.spec_accepts(d)
                }) by {
                assert(forall|d: Weekday|
                    d != day ==> #[trigger] d.spec_day_index() != day.spec_day_index());
            }
        }
        r
    }

    /// The sub-sequence of the given dates, in order, whose weekday is in
    /// the current set.
    pub fn filter_days_list(&self, dates: &Vec<CalendarDate>) -> (r: Vec<CalendarDate>)
        requires
            self.wf(),
            forall|i: int| 0 <= i < dates@.len() ==> (#[trigger] dates@[i]).wf(),
        ensures
            r@ == kept_dates(dates@, chosen_days(self.accepted@)),
    {
        let mut r: Vec<CalendarDate> = Vec::new();
        let mut i: usize = 0;
        proof {
            assert(dates@.skip(0) =~= dates@);
            assert(r@ + kept_dates(dates@, chosen_days(self.accepted@)) =~= kept_dates(
                dates@,
                chosen_days(self.accepted@),
            ));
        }
        while i < dates.len()
            invariant
                0 <= i <= dates@.len(),
                self.wf(),
                forall|k: int| 0 <= k < dates@.len() ==> (#[trigger] dates@[k]).wf(),
                kept_dates(dates@, chosen_days(self.accepted@)) == r@ + kept_dates(
                    dates@.skip(i as int),
                    chosen_days(self.accepted@),
                ),
            decreases dates@.len() - i,
        {
            proof {
                lemma_kept_dates_skip_step(dates@, chosen_days(self.accepted@), i as int);
            }
            let date = dates[i];
            if self.accepts(date.day_of_week()) {
                r.push(date);
                proof {
                    assert(kept_dates(dates@, chosen_days(self.accepted@)) =~= r@ + kept_dates(
                        dates@.skip(i as int + 1),
                        chosen_days(self.accepted@),
                    ));
                }
            }
            i = i + 1;
        }
        proof {
            assert(dates@.skip(dates@.len() as int) =~= Seq::<CalendarDate>::empty());
            assert(r@ =~= kept_dates(dates@, chosen_days(self.accepted@)));
        }
        r
    }
}

/// Toggling the same day twice gives back the membership the filter
/// started with: `toggle` is involutive.
pub proof fn lemma_toggle_involutive(accepted: Seq<bool>, day: Weekday)
    requires
        accepted.len() == 7,
    ensures
        spec_toggle(spec_toggle(accepted, day), day) == accepted,
{
    assert(spec_toggle(spec_toggle(accepted, day), day) =~= accepted);
}

/// The weekdays of a sequence that the predicate accepts, in their given
/// order.
pub open spec fn kept_weekdays(days: Seq<Weekday>, accept: spec_fn(Weekday) -> bool) -> Seq<
    Weekday,
>
    decreases days.len(),
{
    if days.len() == 0 {
        Seq::empty()
    } else if accept(days[0]) {
        seq![days[0]] + kept_weekdays(days.drop_first(), accept)
    } else {
        kept_weekdays(days.drop_first(), accept)
    }
}

/// Keeping weekdays consumes one day at a time, as filtering dates does.
proof fn lemma_kept_weekdays_skip_step(days: Seq<Weekday>, accept: spec_fn(Weekday) -> bool, i: int)
    requires
        0 <= i < days.len(),
    ensures
        kept_weekdays(days.skip(i), accept) == if accept(days[i]) {
            seq![days[i]] + kept_weekdays(days.skip(i + 1), accept)
        } else {
            kept_weekdays(days.skip(i + 1), accept)
        },
{
    assert(days.skip(i).drop_first() =~= days.skip(i + 1));
    assert(days.skip(i)[0] == days[i]);
}

/// A day is among the kept weekdays exactly when it is in the sequence and
/// accepted.
proof fn lemma_kept_weekdays_complete(days: Seq<Weekday>, accept: spec_fn(Weekday) -> bool)
    ensures
        forall|day: Weekday| #[trigger]
            kept_weekdays(days, accept).contains(day) <==> (days.contains(day) && accept(day)),
    decreases days.len(),
{
    if days.len() > 0 {
        lemma_kept_weekdays_complete(days.drop_first(), accept);
        assert(forall|day: Weekday| #[trigger]
            days.contains(day) <==> (day == days[0] || days.drop_first().contains(day))) by {
            assert(forall|j: int|
                1 <= j < days.len() ==> days.drop_first()[j - 1] == #[trigger] days[j]);
            assert(forall|j: int|
                0 <= j < days.drop_first().len() ==> #[trigger] days.drop_first()[j] == days[j
                    + 1]);
        }
        assert(forall|day: Weekday|
            kept_weekdays(days, accept).contains(day) <==> (day == days[0] && accept(day)
                || kept_weekdays(days.drop_first(), accept).contains(day))) by {
            if accept(days[0]) {
                assert(kept_weekdays(days, accept) == seq![days[0]] + kept_weekdays(
                    days.drop_first(),
                    accept,
                ));
                assert(forall|j: int|
                    0 <= j < kept_weekdays(days.drop_first(), accept).len() ==> (seq![days[0]]
                        + kept_weekdays(days.drop_first(), accept))[j + 1] == #[trigger]
                        kept_weekdays(days.drop_first(), accept)[j]);
                assert((seq![days[0]] + kept_weekdays(days.drop_first(), accept))[0] == days[0]);
            }
        }
    }
}

/// Hands out, one at a time and in order, the days of a range whose
/// weekday is in the filter's current set; reads one inner day per step.
#[derive(Debug)]
pub struct FilterByWeekDayIterator {
    pub iterator: DaysCursor,
    pub filter: WeekDayFilter,
}

impl FilterByWeekDayIterator {
    pub open spec fn wf(self) -> bool {
        &&& self.iterator.wf()
        &&& self.filter.wf()
    }

    /// The dates the iterator has yet to hand out.
    pub open spec fn remaining_kept(self) -> Seq<CalendarDate> {
        kept_dates(self.iterator.remaining(), chosen_days(self.filter.accepted@))
    }

    /// The first not-yet-seen date whose weekday is in the set, or nothing
    /// once no such date is left.
    pub fn next(&mut self) -> (r: Option<CalendarDate>)
        requires
            old(self).wf(),
        ensures
            final(self).wf(),
            final(self).filter.accepted@ == old(self).filter.accepted@,
            match r {
                Some(date) => {
                    &&& old(self).remaining_kept().len() > 0
                    &&& date == old(self).remaining_kept()[0]
                    &&& final(self).remaining_kept() == old(self).remaining_kept().drop_first()
                },
                None => {
                    &&& old(self).remaining_kept().len() == 0
                    &&& final(self).remaining_kept().len() == 0
                },
            },
    {
        loop
            invariant
                self.wf(),
                self.filter.accepted@ == old(self).filter.accepted@,
                self.remaining_kept() == old(self).remaining_kept(),
            decreases self.iterator.remaining().len(),
        {
            let ghost before = self.iterator.remaining();
            match self.iterator.next() {
                None => {
                    return None;
                },
                Some(date) => {
                    proof {
                        lemma_kept_dates_skip_step(before, chosen_days(self.filter.accepted@), 0);
                        assert(before.skip(0) =~= before);
                        assert(before.skip(1) =~= before.drop_first());
                    }
                    if self.filter.accepts(date.day_of_week()) {
                        proof {
                            assert(kept_dates(before, chosen_days(self.filter.accepted@))
                                == seq![date] + self.remaining_kept());
                            assert(kept_dates(before, chosen_days(self.filter.accepted@))[0]
                                == date);
                            assert((seq![date] + self.remaining_kept()).drop_first()
                                =~= self.remaining_kept());
                        }
                        return Some(date);
                    }
                },
            }
        }
    }

    /// Drains the iterator: every date it would hand out, in order.
    pub fn collect_days(&mut self) -> (r: Vec<CalendarDate>)
        requires
            old(self).wf(),
        ensures
            final(self).wf(),
            r@ == old(self).remaining_kept(),
            final(self).remaining_kept().len() == 0,
    {
        let mut r: Vec<CalendarDate> = Vec::new();
        loop
            invariant
                self.wf(),
                old(self).remaining_kept() == r@ + self.remaining_kept(),
            decreases self.remaining_kept().len(),
        {
            match self.next() {
                None => {
                    proof {
                        assert(r@ =~= old(self).remaining_kept());
                    }
                    return r;
                },
                Some(date) => {
                    r.push(date);
                    proof {
                        assert(old(self).remaining_kept() =~= r@ + self.remaining_kept());
                    }
                },
            }
        }
    }
}

/// Lets a day cursor be filtered in place by the toggleable filter.
pub trait FilterByWeekDays where Self: Sized {
    /// Wraps the sequence so that only dates whose weekday is in the
    /// filter's set come out.
    fn filter_by_weekday(self, day_filter: &WeekDayFilter) -> FilterByWeekDayIterator;
}

impl FilterByWeekDays for DaysCursor {
    fn filter_by_weekday(self, day_filter: &WeekDayFilter) -> (r: FilterByWeekDayIterator)
        ensures
            r.iterator == self,
            r.filter.accepted@ == day_filter.accepted@,
    {
        FilterByWeekDayIterator { iterator: self, filter: day_filter.clone() }
    }
}

} // verus!
