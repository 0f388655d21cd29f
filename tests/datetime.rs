use possu_web::calendar::{month_length, Month, MAX_YEAR, MIN_YEAR};
use possu_web::instant::Instant;
use possu_web::range::DateTimeRange;

fn make_date(y: i32, m: u32, d: u32) -> Instant {
    Instant::from_ymd_hms(y, m, d, 12, 0, 0, 0).unwrap()
}

#[test]
fn month_can_be_contructed_from_u32() {
    let tests = vec![
        (1, Month::January),
        (2, Month::February),
        (3, Month::March),
        (4, Month::April),
        (5, Month::May),
        (6, Month::June),
        (7, Month::July),
        (8, Month::August),
        (9, Month::September),
        (10, Month::October),
        (11, Month::November),
        (12, Month::December),
        (0, Month::December),
        (13, Month::January),
        (14, Month::February),
        (678, Month::June),
    ];

    for (month, expected_month) in tests {
        let month = Month::from_u32(month);

        assert_eq!(month, expected_month);
    }
}

#[test]
fn datetimerange_is_constructed_from_two_datetimes() {
    let now = chrono::Utc::now();
    let date1 = Instant::from_parts(
        chrono::Datelike::year(&now),
        chrono::Datelike::month(&now),
        chrono::Datelike::day(&now),
        chrono::Timelike::hour(&now),
        chrono::Timelike::minute(&now),
        chrono::Timelike::second(&now),
        chrono::Timelike::nanosecond(&now),
        0,
    )
    .unwrap();
    let date2 = date1;
    let range = DateTimeRange::from(date1, date2);
    assert_eq!(range.start, date1);
    assert_eq!(range.end, date2);
    assert_eq!(date1.timestamp(), now.timestamp());
}

#[test]
fn datetimerange_list_years_lists_years_between_its_dates() {
    let tests = vec![
        // incorrect date order
        (make_date(2000, 1, 1), make_date(1999, 1, 1), 1..=0),
        // single year range is correct
        (make_date(1999, 1, 1), make_date(1999, 1, 1), 1999..=1999),
        // multi year range is correct
        (make_date(1999, 1, 1), make_date(2000, 1, 1), 1999..=2000),
        (make_date(1999, 1, 1), make_date(3000, 12, 1), 1999..=3000),
        (make_date(1999, 12, 31), make_date(3003, 8, 5), 1999..=3003),
    ];

    for (date1, date2, expected_years) in tests {
        let range = DateTimeRange::from(date1, date2);
        let years = range.list_years();
        let expected_years: Vec<i32> = expected_years.collect();

        assert_eq!(years, expected_years);
    }
}

#[test]
fn datetime_get_year_or_last_returns_year_or_last_or_none() {
    let tests = vec![
        // incorrect date order
        (make_date(2000, 1, 1), make_date(1999, 1, 1), Some(1999), None),
        // year out of range gives last in list
        (make_date(1999, 1, 1), make_date(2003, 1, 1), Some(1800), Some(2003)),
        // year in range gives year
        (make_date(1999, 1, 1), make_date(2003, 1, 1), Some(2000), Some(2000)),
        // None gives last in list
        (make_date(1999, 1, 1), make_date(2003, 1, 1), None, Some(2003)),
    ];

    for (date1, date2, test_year, expected_year) in tests {
        let range = DateTimeRange::from(date1, date2);
        let year = range.get_year_or_last(test_year);

        assert_eq!(year, expected_year);
    }
}

#[test]
fn datetimerange_list_months_for_year_lists_available_months_for_given_year() {
    let tests = vec![
        // incorrect date order
        (make_date(2000, 1, 1), make_date(1999, 1, 1), 2000, 1..=0),
        // single month range is correct
        (make_date(1999, 1, 1), make_date(1999, 1, 1), 1999, 1..=1),
        (make_date(1999, 1, 1), make_date(2000, 1, 1), 2000, 1..=1),
        // year out of range
        (make_date(1999, 1, 1), make_date(2000, 1, 1), 3000, 1..=0),
        // multi month range is correct
        // partial year
        (make_date(1999, 4, 1), make_date(1999, 8, 1), 1999, 4..=8),
        // partial year to end
        (make_date(1999, 4, 1), make_date(2001, 8, 1), 1999, 4..=12),
        // full year
        (make_date(1999, 4, 1), make_date(2001, 8, 1), 2000, 1..=12),
        // partial year from start
        (make_date(1999, 4, 1), make_date(2001, 8, 1), 2001, 1..=8),
    ];

    for (date1, date2, year, expected_months) in tests {
        let range = DateTimeRange::from(date1, date2);
        let months = range.list_months_for_year(year);
        let expected_months: Vec<Month> = expected_months.map(Month::from_u32).collect();

        assert_eq!(months, expected_months);
    }
}

#[test]
fn datetime_get_month_or_last_for_year_returns_month_or_last_or_none() {
    let tests = vec![
        // incorrect date order
        (make_date(2000, 1, 1), make_date(1999, 1, 1), Some(1), Some(1999), None),
        // month out of range gives last in list
        (make_date(1999, 1, 1), make_date(2000, 6, 1), Some(9), Some(2000), Some(6)),
        // month in range gives month
        (make_date(1999, 1, 1), make_date(2000, 6, 1), Some(3), Some(2000), Some(3)),
        // month None gives last in list
        (make_date(1999, 1, 1), make_date(2000, 6, 1), None, Some(2000), Some(6)),
        // year out of range gives none
        (make_date(1999, 1, 1), make_date(2000, 6, 1), Some(3), Some(2001), None),
        // year None gives None
        (make_date(1999, 1, 1), make_date(2000, 6, 1), Some(3), None, None),
    ];

    for (date1, date2, test_month, test_year, expected_month) in tests {
        let range = DateTimeRange::from(date1, date2);
        let test_month = test_month.map(Month::from_u32);
        let month = range.get_month_or_last_for_year(test_month, test_year);
        let expected_month = expected_month.map(Month::from_u32);

        assert_eq!(month, expected_month);
    }
}

#[test]
fn datetimerange_list_days_for_year_and_month_lists_available_days_for_given_combination() {
    let tests = vec![
        // incorrect date order
        (make_date(2000, 1, 1), make_date(1999, 1, 1), 1999, 1, 1..=0),
        // single day range is correct
        (make_date(1999, 1, 4), make_date(1999, 1, 4), 1999, 1, 4..=4),
        // multi day range is correct
        (make_date(1999, 1, 2), make_date(1999, 1, 20), 1999, 1, 2..=20),
        // year out of range
        (make_date(1999, 1, 1), make_date(1999, 1, 1), 2000, 1, 1..=0),
        // month out of range
        (make_date(1999, 1, 1), make_date(1999, 1, 1), 1999, 2, 1..=0),
        // february with 28 days is correct
        (make_date(1999, 1, 1), make_date(2000, 12, 1), 1999, 2, 1..=28),
        // february with 29 days is correct
        (make_date(1999, 1, 1), make_date(2000, 12, 1), 2000, 2, 1..=29),
        // month with 30 days is correct
        (make_date(1999, 1, 1), make_date(2000, 12, 1), 2000, 4, 1..=30),
        // month with 31 days is correct
        (make_date(1999, 1, 1), make_date(2000, 12, 1), 2000, 5, 1..=31),
    ];

    for (date1, date2, year, month, expected_days) in tests {
        let range = DateTimeRange::from(date1, date2);
        let days = range.list_days_for_year_and_month(year, Month::from_u32(month));
        let expected_days: Vec<u32> = expected_days.collect();

        assert_eq!(days, expected_days);
    }
}

#[test]
fn datetime_get_day_or_last_for_month_and_year_returns_day_or_last_or_none() {
    let tests = vec![
        // incorrect date order
        (make_date(2000, 1, 1), make_date(1999, 1, 1), Some(1), Some(1), Some(1999), None),
        // day out of range gives last in list
        (make_date(1999, 1, 1), make_date(2000, 6, 5), Some(7), Some(6), Some(2000), Some(5)),
        // day in range gives day
        (make_date(1999, 1, 1), make_date(2000, 6, 5), Some(3), Some(6), Some(2000), Some(3)),
        // day None gives last in list
        (make_date(1999, 1, 1), make_date(2000, 6, 9), None, Some(6), Some(2000), Some(9)),
        // month out of range gives None
        (make_date(1999, 1, 1), make_date(2000, 6, 1), Some(1), Some(7), Some(2000), None),
        // year out of range gives none
        (make_date(1999, 1, 1), make_date(2000, 6, 1), Some(1), Some(6), Some(2001), None),
        // year None gives None
        (make_date(1999, 1, 1), make_date(2000, 6, 1), Some(1), Some(6), None, None),
    ];

    for (date1, date2, test_day, test_month, test_year, expected_day) in tests {
        let range = DateTimeRange::from(date1, date2);
        let test_month = test_month.map(Month::from_u32);
        let day = range.get_day_or_last_for_month_and_year(test_day, test_month, test_year);

        assert_eq!(day, expected_day);
    }
}

#[test]
fn month_length_follows_the_gregorian_leap_rule() {
    assert_eq!(month_length(1999, Month::February), 28);
    assert_eq!(month_length(2000, Month::February), 29);
    assert_eq!(month_length(1900, Month::February), 28);
    assert_eq!(month_length(2024, Month::February), 29);
    assert_eq!(month_length(2100, Month::February), 28);
    assert_eq!(month_length(2023, Month::April), 30);
    assert_eq!(month_length(2023, Month::December), 31);
    assert_eq!(month_length(MIN_YEAR, Month::January), 31);
    assert_eq!(month_length(MAX_YEAR, Month::December), 31);
}

#[test]
fn every_month_lists_its_calendar_days_when_inside_the_range() {
    let range = DateTimeRange::from(make_date(2023, 1, 15), make_date(2025, 12, 15));
    let expected = [31, 29, 31, 30, 31, 30, 31, 31, 30, 31, 30, 31];
    for (i, length) in expected.iter().enumerate() {
        let days = range.list_days_for_year_and_month(2024, Month::from_u32(i as u32 + 1));
        let want: Vec<u32> = (1..=*length).collect();
        assert_eq!(days, want);
    }
    let february = range.list_days_for_year_and_month(2023, Month::February);
    assert_eq!(february.len(), 28);
}

#[test]
fn instant_rejects_parts_that_make_no_instant() {
    assert!(Instant::from_ymd_hms(2023, 2, 29, 0, 0, 0, 0).is_none());
    assert!(Instant::from_ymd_hms(2024, 2, 29, 0, 0, 0, 0).is_some());
    assert!(Instant::from_ymd_hms(2023, 13, 1, 0, 0, 0, 0).is_none());
    assert!(Instant::from_ymd_hms(2023, 0, 1, 0, 0, 0, 0).is_none());
    assert!(Instant::from_ymd_hms(2023, 1, 1, 24, 0, 0, 0).is_none());
    assert!(Instant::from_ymd_hms(2023, 1, 1, 0, 0, 0, 86_400).is_none());
    assert!(Instant::from_ymd_hms(2023, 1, 1, 0, 0, 0, -86_399).is_some());
    assert!(Instant::from_parts(2023, 1, 1, 0, 0, 59, 1_500_000_000, 0).is_some());
    assert!(Instant::from_parts(2023, 1, 1, 0, 0, 58, 1_500_000_000, 0).is_none());
    assert!(Instant::from_ymd_hms(MAX_YEAR + 1, 1, 1, 0, 0, 0, 0).is_none());
    assert!(Instant::from_ymd_hms(MAX_YEAR, 12, 31, 23, 0, 0, -7200).is_none());
    assert!(Instant::from_ymd_hms(MAX_YEAR, 12, 31, 23, 0, 0, 0).is_some());
    assert!(Instant::from_ymd_hms(MIN_YEAR, 1, 1, 0, 30, 0, 3600).is_none());
    assert!(Instant::from_ymd_hms(MIN_YEAR, 1, 1, 0, 30, 0, 0).is_some());
}

#[test]
fn instant_keeps_its_parts_and_timestamp() {
    let epoch = Instant::from_ymd_hms(1970, 1, 1, 0, 0, 0, 0).unwrap();
    assert_eq!(epoch.timestamp(), 0);
    let y2k = Instant::from_ymd_hms(2000, 1, 1, 0, 0, 0, 0).unwrap();
    assert_eq!(y2k.timestamp(), 946_684_800);
    let helsinki = Instant::from_parts(2000, 1, 1, 2, 0, 0, 5, 7200).unwrap();
    assert_eq!(helsinki.timestamp(), 946_684_800);
    assert_eq!(
        (helsinki.year(), helsinki.month(), helsinki.day()),
        (2000, 1, 1)
    );
    assert_eq!(
        (helsinki.hour(), helsinki.minute(), helsinki.second(), helsinki.nanosecond()),
        (2, 0, 0, 5)
    );
    assert_eq!(helsinki.offset(), 7200);
    assert!(helsinki.is_after(&y2k));
    let year_zero = Instant::from_ymd_hms(0, 1, 1, 0, 0, 0, 0).unwrap();
    assert_eq!(year_zero.timestamp(), -62_167_219_200);
    let leap_day = Instant::from_ymd_hms(-4, 2, 29, 6, 0, 0, -3600).unwrap();
    assert_eq!(
        leap_day.timestamp(),
        chrono::NaiveDate::from_ymd_opt(-4, 2, 29)
            .unwrap()
            .and_hms_opt(7, 0, 0)
            .unwrap()
            .and_utc()
            .timestamp()
    );
    assert!(!y2k.is_after(&helsinki));
}

#[test]
fn instants_compare_as_points_in_time_across_offsets() {
    // 2000-01-01T00:30+01:00 is 1999-12-31T23:30Z, before 1999-12-31T23:45Z.
    let start = Instant::from_ymd_hms(2000, 1, 1, 0, 30, 0, 3600).unwrap();
    let end = Instant::from_ymd_hms(1999, 12, 31, 23, 45, 0, 0).unwrap();
    assert!(!start.is_after(&end));
    assert!(end.is_after(&start));
    let range = DateTimeRange::from(start, end);
    assert!(!range.is_inverted_range());
    assert_eq!(range.list_years(), Vec::<i32>::new());
}

#[test]
fn with_date_keeps_time_and_offset() {
    let template = Instant::from_parts(2000, 2, 29, 13, 14, 15, 16, -18_000).unwrap();
    let moved = template.with_date(1999, Month::February, 28).unwrap();
    assert_eq!((moved.year(), moved.month(), moved.day()), (1999, 2, 28));
    assert_eq!(
        (moved.hour(), moved.minute(), moved.second(), moved.nanosecond(), moved.offset()),
        (13, 14, 15, 16, -18_000)
    );
    assert!(template.with_date(1999, Month::February, 29).is_none());
}
