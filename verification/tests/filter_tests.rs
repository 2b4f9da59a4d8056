use taking_turns::calendar_date::CalendarDate;
use taking_turns::date_range::build_date_range;
use taking_turns::day_filter::{DayFilter, FilterDays};
use taking_turns::weekday::Weekday;
use taking_turns::weekday_filter::{FilterByWeekDays, WeekDayFilter};

#[test]
fn removes_weekend_days_by_default() {
    let filter = DayFilter::default();
    assert_eq!(filter.removed_days(), vec![Weekday::Sat, Weekday::Sun]);
}

#[test]
fn the_fixed_filter_accepts_exactly_the_five_working_days() {
    let filter = DayFilter::default();
    assert!(filter.accepts(Weekday::Mon));
    assert!(filter.accepts(Weekday::Tue));
    assert!(filter.accepts(Weekday::Wed));
    assert!(filter.accepts(Weekday::Thu));
    assert!(filter.accepts(Weekday::Fri));
    assert!(!filter.accepts(Weekday::Sat));
    assert!(!filter.accepts(Weekday::Sun));
}

#[test]
fn can_be_used_to_filter_an_iterator() {
    // 2025-01-10 is a Friday; the 11th and 12th are the weekend.
    let range = build_date_range("2025-01-10", "2025-01-12").unwrap();
    let filter = DayFilter::default();
    let mut filtered = range.days_cursor().filter_days(&filter);
    let kept = filtered.collect_days();
    assert_eq!(kept, vec![range.start]);
}

#[test]
fn filtering_a_whole_week_keeps_the_five_weekdays_in_order() {
    // 2025-01-06 is a Monday: seven consecutive days end on a Sunday.
    let week = build_date_range("2025-01-06", "2025-01-12").unwrap();
    let working_days = build_date_range("2025-01-06", "2025-01-10").unwrap();
    let filter = DayFilter::default();
    let kept = filter.filter_days_list(&week.days());
    assert_eq!(kept, working_days.days());
}

#[test]
fn filtering_twice_equals_filtering_once() {
    let range = build_date_range("2025-01-01", "2025-02-15").unwrap();
    let filter = DayFilter::default();
    let once = filter.filter_days_list(&range.days());
    let twice = filter.filter_days_list(&once);
    assert_eq!(twice, once);
}

#[test]
fn the_lazy_filter_hands_out_one_kept_date_per_call() {
    let range = build_date_range("2025-01-10", "2025-01-14").unwrap();
    let filter = DayFilter::default();
    let mut filtered = range.days_cursor().filter_days(&filter);
    // Friday the 10th, then the weekend is skipped to Monday the 13th.
    assert_eq!(filtered.next(), Some(CalendarDate::from_day_number(range.start.day_number)));
    assert_eq!(filtered.next(), Some(CalendarDate::from_day_number(range.start.day_number + 3)));
    assert_eq!(filtered.next(), Some(CalendarDate::from_day_number(range.start.day_number + 4)));
    assert_eq!(filtered.next(), None);
}

#[test]
fn the_toggleable_filter_accepts_working_days_by_default() {
    let filter = WeekDayFilter::default();
    assert_eq!(
        filter.accepted_days(),
        vec![Weekday::Mon, Weekday::Tue, Weekday::Wed, Weekday::Thu, Weekday::Fri]
    );
}

#[test]
fn can_toggle_out_a_day() {
    let filter = WeekDayFilter::default();
    let filter = filter.toggle(Weekday::Mon);
    assert_eq!(
        filter.accepted_days(),
        vec![Weekday::Tue, Weekday::Wed, Weekday::Thu, Weekday::Fri]
    );
}

#[test]
fn can_toggle_in_a_day() {
    let filter = WeekDayFilter::default();
    let filter = filter.toggle(Weekday::Sun);
    assert_eq!(
        filter.accepted_days(),
        vec![Weekday::Mon, Weekday::Tue, Weekday::Wed, Weekday::Thu, Weekday::Fri, Weekday::Sun]
    );
}

#[test]
fn toggling_the_same_day_twice_restores_the_filter() {
    for day in [
        Weekday::Mon,
        Weekday::Tue,
        Weekday::Wed,
        Weekday::Thu,
        Weekday::Fri,
        Weekday::Sat,
        Weekday::Sun,
    ] {
        let original = WeekDayFilter::default();
        let toggled_twice = original.clone().toggle(day).toggle(day);
        assert_eq!(toggled_twice.accepted_days(), original.accepted_days());
    }
}

#[test]
fn toggling_leaves_the_previous_filter_value_usable() {
    let original = WeekDayFilter::default();
    let changed = original.clone().toggle(Weekday::Mon);
    assert!(original.accepts(Weekday::Mon));
    assert!(!changed.accepts(Weekday::Mon));
}

#[test]
fn the_toggleable_filter_can_filter_an_iterator() {
    // 2025-01-10 is a Friday; the 11th and 12th are the weekend.
    let range = build_date_range("2025-01-10", "2025-01-12").unwrap();
    let filter = WeekDayFilter::default();
    let mut filtered = range.days_cursor().filter_by_weekday(&filter);
    let kept = filtered.collect_days();
    assert_eq!(kept, vec![range.start]);
}

#[test]
fn a_toggled_filter_keeps_the_toggled_day_in_a_sequence() {
    // 2025-01-11 is a Saturday.
    let range = build_date_range("2025-01-10", "2025-01-12").unwrap();
    let filter = WeekDayFilter::default().toggle(Weekday::Sat);
    let kept = filter.filter_days_list(&range.days());
    let day_numbers: Vec<i64> = kept.iter().map(|d| d.day_number).collect();
    assert_eq!(day_numbers, vec![range.start.day_number, range.start.day_number + 1]);
}

#[test]
fn toggleable_filtering_twice_equals_filtering_once() {
    let range = build_date_range("2025-01-01", "2025-02-15").unwrap();
    let filter = WeekDayFilter::default().toggle(Weekday::Wed).toggle(Weekday::Sun);
    let once = filter.filter_days_list(&range.days());
    let twice = filter.filter_days_list(&once);
    assert_eq!(twice, once);
}

#[test]
fn both_filter_variants_make_the_same_default_decision() {
    let fixed = DayFilter::default();
    let toggleable = WeekDayFilter::default();
    for i in 0..7u8 {
        let day = Weekday::from_day_index(i);
        assert_eq!(fixed.accepts(day), toggleable.accepts(day));
    }
}
