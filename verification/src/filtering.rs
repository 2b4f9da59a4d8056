//! The one capability both day filters offer: decide, given a date's day
//! of the week, whether the date is kept. Filtering a date sequence keeps
//! the sub-sequence, in order, of dates whose weekday is accepted.

use vstd::prelude::*;

use crate::calendar_date::CalendarDate;
use crate::weekday::Weekday;

verus! {

/// The dates whose weekday the predicate accepts, in their given order.
pub open spec fn kept_dates(
    dates: Seq<CalendarDate>,
    accept: spec_fn(Weekday) -> bool,
) -> Seq<CalendarDate>
    decreases dates.len(),
{
    if dates.len() == 0 {
        Seq::empty()
    } else if accept(dates[0].spec_weekday()) {
        seq![dates[0]] + kept_dates(dates.drop_first(), accept)
    } else {
        kept_dates(dates.drop_first(), accept)
    }
}

/// Filtering consumes one date at a time: the dates kept from position `i`
/// on are the dates kept from position `i + 1` on, with date `i` in front
/// when its weekday is accepted.
pub proof fn lemma_kept_dates_skip_step(
    dates: Seq<CalendarDate>,
    accept: spec_fn(Weekday) -> bool,
    i: int,
)
    requires
        0 <= i < dates.len(),
    ensures
        kept_dates(dates.skip(i), accept) == if accept(dates[i].spec_weekday()) {
            seq![dates[i]] + kept_dates(dates.skip(i + 1), accept)
        } else {
            kept_dates(dates.skip(i + 1), accept)
        },
{
    assert(dates.skip(i).drop_first() =~= dates.skip(i + 1));
    assert(dates.skip(i)[0] == dates[i]);
}

/// Every date that filtering keeps has an accepted weekday.
pub proof fn lemma_kept_dates_accepted(dates: Seq<CalendarDate>, accept: spec_fn(Weekday) -> bool)
    ensures
        forall|i: int|
            0 <= i < kept_dates(dates, accept).len() ==> accept(
                #[trigger] kept_dates(dates, accept)[i].spec_weekday(),
            ),
    decreases dates.len(),
{
    if dates.len() > 0 {
        lemma_kept_dates_accepted(dates.drop_first(), accept);
    }
}

/// Filtering keeps a sequence whose every weekday is accepted as it is.
pub proof fn lemma_kept_dates_of_accepted(
    dates: Seq<CalendarDate>,
    accept: spec_fn(Weekday) -> bool,
)
    requires
        forall|i: int| 0 <= i < dates.len() ==> accept(#[trigger] dates[i].spec_weekday()),
    ensures
        kept_dates(dates, accept) == dates,
    decreases dates.len(),
{
    if dates.len() == 0 {
        assert(kept_dates(dates, accept) =~= dates);
    } else {
        assert(forall|i: int|
            0 <= i < dates.drop_first().len() ==> #[trigger] dates.drop_first()[i] == dates[i + 1]);
        lemma_kept_dates_of_accepted(dates.drop_first(), accept);
        assert(kept_dates(dates, accept) =~= dates);
    }
}

/// Filtering is idempotent: filtering a sequence a second time with the
/// same predicate changes nothing.
pub proof fn lemma_kept_dates_idempotent(
    dates: Seq<CalendarDate>,
    accept: spec_fn(Weekday) -> bool,
)
    ensures
        kept_dates(kept_dates(dates, accept), accept) == kept_dates(dates, accept),
{
    lemma_kept_dates_accepted(dates, accept);
    lemma_kept_dates_of_accepted(kept_dates(dates, accept), accept);
}

} // verus!
