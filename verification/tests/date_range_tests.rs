use chrono::Datelike;
use taking_turns::calendar_date::CalendarDate;
use taking_turns::date_range::{build_date_range, DateRange, DateRangeError};
use taking_turns::weekday::Weekday;

fn day_number_of(y: i32, m: u32, d: u32) -> i64 {
    chrono::NaiveDate::from_ymd_opt(y, m, d).unwrap().num_days_from_ce() as i64
}

#[test]
fn build_from_two_dates_with_big_difference() {
    let range = build_date_range("0001-01-01", "3000-12-30").unwrap();
    assert_eq!(range.start.day_number, day_number_of(1, 1, 1));
    assert_eq!(range.end.day_number, day_number_of(3000, 12, 30));
}

#[test]
fn build_from_two_dates_one_day_apart() {
    let range = build_date_range("2025-01-01", "2025-01-02").unwrap();
    assert_eq!(range.start.day_number, day_number_of(2025, 1, 1));
    assert_eq!(range.end.day_number, day_number_of(2025, 1, 2));
}

#[test]
fn build_from_the_same_day_twice() {
    let range = build_date_range("2025-01-01", "2025-01-01").unwrap();
    assert_eq!(range.start, range.end);
}

#[test]
fn fails_to_build_when_starting_date_has_wrong_separators() {
    let result = build_date_range("2025/01/01", "2025-01-02");
    match result {
        Err(DateRangeError::StartDateFormatWrong(raw)) => assert_eq!(raw, "2025/01/01"),
        other => panic!("expected a start format error, got {:?}", other),
    }
}

#[test]
fn fails_to_build_when_starting_date_swaps_day_and_month() {
    let result = build_date_range("2025-13-01", "3000-12-30");
    match result {
        Err(DateRangeError::StartDateFormatWrong(raw)) => assert_eq!(raw, "2025-13-01"),
        other => panic!("expected a start format error, got {:?}", other),
    }
}

#[test]
fn fails_to_build_when_ending_date_has_wrong_separators() {
    let result = build_date_range("0001-01-01", "2025/01/01");
    match result {
        Err(DateRangeError::EndDateFormatWrong(raw)) => assert_eq!(raw, "2025/01/01"),
        other => panic!("expected an end format error, got {:?}", other),
    }
}

#[test]
fn fails_to_build_when_ending_date_swaps_day_and_month() {
    let result = build_date_range("2025-01-01", "2025-13-01");
    match result {
        Err(DateRangeError::EndDateFormatWrong(raw)) => assert_eq!(raw, "2025-13-01"),
        other => panic!("expected an end format error, got {:?}", other),
    }
}

#[test]
fn start_format_error_is_reported_before_end_format_error() {
    let result = build_date_range("2025/01/01", "2025-13-01");
    assert!(matches!(result, Err(DateRangeError::StartDateFormatWrong(_))));
}

#[test]
fn fails_to_build_when_starting_date_is_after_ending_date() {
    let result = build_date_range("3000-12-30", "0001-01-01");
    match result {
        Err(DateRangeError::StartDateAfterEndDate(start, end)) => {
            assert_eq!(start.day_number, day_number_of(3000, 12, 30));
            assert_eq!(end.day_number, day_number_of(1, 1, 1));
        },
        other => panic!("expected an ordering error, got {:?}", other),
    }
}

#[test]
fn fails_to_build_when_starting_date_is_one_day_after_ending_date() {
    let result = build_date_range("2025-01-02", "2025-01-01");
    assert!(matches!(result, Err(DateRangeError::StartDateAfterEndDate(_, _))));
}

#[test]
fn can_be_iterated_over() {
    let range = build_date_range("2025-01-01", "2025-01-03").unwrap();
    let days = range.days();
    let expected = vec![
        day_number_of(2025, 1, 1),
        day_number_of(2025, 1, 2),
        day_number_of(2025, 1, 3),
    ];
    let got: Vec<i64> = days.iter().map(|d| d.day_number).collect();
    assert_eq!(got, expected);
}

#[test]
fn days_count_first_and_last_match_the_bounds() {
    let range = build_date_range("2024-02-27", "2024-03-02").unwrap();
    let days = range.days();
    // 2024 is a leap year: the range spans February 29.
    assert_eq!(days.len(), 5);
    assert_eq!(days[0], range.start);
    assert_eq!(days[4], range.end);
    for window in days.windows(2) {
        assert_eq!(window[1].day_number, window[0].day_number + 1);
    }
}

#[test]
fn a_range_of_one_day_yields_a_single_day_sequence() {
    let range = build_date_range("2025-06-15", "2025-06-15").unwrap();
    let days = range.days();
    assert_eq!(days.len(), 1);
    assert_eq!(days[0], range.start);
}

#[test]
fn days_cursor_hands_out_the_same_days_as_the_eager_sequence() {
    let range = build_date_range("2025-01-01", "2025-01-04").unwrap();
    let mut cursor = range.days_cursor();
    let mut collected: Vec<CalendarDate> = Vec::new();
    while let Some(day) = cursor.next() {
        collected.push(day);
    }
    assert_eq!(collected, range.days());
    assert_eq!(cursor.next(), None);
}

#[test]
fn day_of_week_matches_the_date_library() {
    let samples = [
        (2025, 1, 1),
        (2025, 1, 6),
        (2024, 2, 29),
        (2000, 1, 1),
        (1970, 1, 1),
        (1, 1, 1),
        (1999, 12, 31),
    ];
    for (y, m, d) in samples {
        let date = CalendarDate::from_day_number(day_number_of(y, m, d));
        let expected = chrono::NaiveDate::from_ymd_opt(y, m, d)
            .unwrap()
            .weekday()
            .num_days_from_monday() as u8;
        assert_eq!(date.day_of_week().day_index(), expected);
    }
}

#[test]
fn next_day_steps_over_a_leap_day_and_a_year_end() {
    let before_leap = CalendarDate::from_day_number(day_number_of(2024, 2, 28));
    assert_eq!(before_leap.next_day().day_number, day_number_of(2024, 2, 29));
    assert_eq!(before_leap.next_day().next_day().day_number, day_number_of(2024, 3, 1));
    let year_end = CalendarDate::from_day_number(day_number_of(2024, 12, 31));
    assert_eq!(year_end.next_day().day_number, day_number_of(2025, 1, 1));
}

#[test]
fn parse_rejects_text_that_is_no_date_at_all() {
    assert!(CalendarDate::parse("yesterday").is_none());
    assert!(CalendarDate::parse("").is_none());
    assert!(CalendarDate::parse("2025-02-30").is_none());
}

#[test]
fn parse_reads_a_well_formed_date() {
    let date = CalendarDate::parse("2025-01-01").unwrap();
    assert_eq!(date.day_number, day_number_of(2025, 1, 1));
}

#[test]
fn ranges_with_equal_bounds_compare_equal() {
    let a = build_date_range("2025-01-01", "2025-01-05").unwrap();
    let b = build_date_range("2025-01-01", "2025-01-05").unwrap();
    let c: DateRange = b;
    assert_eq!(a, c);
}

#[test]
fn weekday_positions_round_trip() {
    for i in 0..7u8 {
        assert_eq!(Weekday::from_day_index(i).day_index(), i);
    }
}
