use apartment_ics::date::CalendarDate;

fn date(year: i32, month: u32, day: u32) -> CalendarDate {
    CalendarDate::new(year, month, day).expect("a valid date")
}

#[test]
fn text_is_year_month_day_with_hyphens() {
    assert_eq!(date(2024, 3, 1).to_text(), "2024-03-01");
    assert_eq!(date(2024, 12, 31).to_text(), "2024-12-31");
    assert_eq!(date(1999, 1, 9).to_text(), "1999-01-09");
}

#[test]
fn years_under_a_thousand_are_padded_to_four_digits() {
    assert_eq!(date(7, 1, 5).to_text(), "0007-01-05");
    assert_eq!(date(0, 2, 29).to_text(), "0000-02-29");
    assert_eq!(date(999, 10, 10).to_text(), "0999-10-10");
    assert_eq!(date(9999, 12, 31).to_text(), "9999-12-31");
}

#[test]
fn years_outside_four_digits_carry_a_sign() {
    assert_eq!(date(10000, 1, 1).to_text(), "+10000-01-01");
    assert_eq!(date(12345, 6, 7).to_text(), "+12345-06-07");
    assert_eq!(date(-1, 12, 31).to_text(), "-0001-12-31");
    assert_eq!(date(-44, 3, 15).to_text(), "-0044-03-15");
    assert_eq!(date(-12345, 6, 7).to_text(), "-12345-06-07");
    assert_eq!(date(i32::MAX, 1, 1).to_text(), "+2147483647-01-01");
    assert_eq!(date(i32::MIN, 1, 1).to_text(), "-2147483648-01-01");
}

#[test]
fn text_of_any_three_numbers_is_defined() {
    let odd = CalendarDate { year: 2024, month: 123, day: 0 };
    assert!(!odd.valid());
    assert_eq!(odd.to_text(), "2024-123-00");
}

#[test]
fn new_accepts_exactly_the_days_that_exist() {
    assert_eq!(
        CalendarDate::new(2024, 2, 29),
        Some(CalendarDate { year: 2024, month: 2, day: 29 })
    );
    assert_eq!(CalendarDate::new(2023, 2, 29), None);
    assert_eq!(CalendarDate::new(1900, 2, 29), None);
    assert!(CalendarDate::new(2000, 2, 29).is_some());
    assert!(CalendarDate::new(-4, 2, 29).is_some());
    assert_eq!(CalendarDate::new(-100, 2, 29), None);
    assert!(CalendarDate::new(-400, 2, 29).is_some());
    assert_eq!(CalendarDate::new(2024, 0, 1), None);
    assert_eq!(CalendarDate::new(2024, 13, 1), None);
    assert_eq!(CalendarDate::new(2024, 1, 0), None);
    assert_eq!(CalendarDate::new(2024, 1, 32), None);
    assert!(CalendarDate::new(2024, 1, 31).is_some());
    assert_eq!(CalendarDate::new(2024, 4, 31), None);
    assert!(CalendarDate::new(2024, 4, 30).is_some());
    assert_eq!(CalendarDate::new(2024, 6, 31), None);
    assert_eq!(CalendarDate::new(2024, 9, 31), None);
    assert_eq!(CalendarDate::new(2024, 11, 31), None);
    assert!(CalendarDate::new(2024, 12, 31).is_some());
}

#[test]
fn valid_agrees_with_new() {
    assert!(CalendarDate { year: 2024, month: 2, day: 29 }.valid());
    assert!(!CalendarDate { year: 2023, month: 2, day: 29 }.valid());
    assert!(!CalendarDate { year: 2023, month: 0, day: 1 }.valid());
}

#[test]
fn parse_reads_the_text_of_a_date() {
    assert_eq!(CalendarDate::parse("2024-03-01"), Some(date(2024, 3, 1)));
    assert_eq!(CalendarDate::parse("0007-01-05"), Some(date(7, 1, 5)));
    assert_eq!(CalendarDate::parse("+12345-06-07"), Some(date(12345, 6, 7)));
    assert_eq!(CalendarDate::parse("-0044-03-15"), Some(date(-44, 3, 15)));
    assert_eq!(CalendarDate::parse("+2147483647-12-31"), Some(date(i32::MAX, 12, 31)));
    assert_eq!(CalendarDate::parse("-2147483648-01-01"), Some(date(i32::MIN, 1, 1)));
}

#[test]
fn parse_refuses_what_is_not_the_text_of_a_date() {
    for text in [
        "",
        "2024",
        "2024-03",
        "2024-3-1",
        "2024-03-1",
        "2024-03-001",
        "24-03-01",
        "02024-03-01",
        "2024/03/01",
        "2024-03-01 ",
        " 2024-03-01",
        "2024-03-01T00:00:00Z",
        "2024-02-30",
        "2023-02-29",
        "2024-00-10",
        "2024-13-10",
        "2024-01-00",
        "2024-01-32",
        "+2024-03-01",
        "-0000-01-01",
        "+0000-01-01",
        "+010000-01-01",
        "-00044-03-15",
        "-44-03-15",
        "+2147483648-01-01",
        "-2147483649-01-01",
        "+99999999999999999999-01-01",
        "2O24-03-01",
        "２０２４-03-01",
        "2024-03-0١",
        "----------",
        "+-----01-01",
    ] {
        assert_eq!(CalendarDate::parse(text), None, "{text:?}");
    }
}

#[test]
fn a_date_written_and_read_again_is_the_same_date() {
    let mut counted = 0;
    for year in [
        i32::MIN, -262143, -10000, -9999, -401, -400, -100, -4, -1, 0, 1, 4, 100, 400, 999, 1000,
        1900, 1999, 2000, 2023, 2024, 9999, 10000, 99999, 262142, i32::MAX,
    ] {
        for month in 0..=13 {
            for day in 0..=32 {
                if let Some(date) = CalendarDate::new(year, month, day) {
                    assert_eq!(CalendarDate::parse(&date.to_text()), Some(date));
                    counted += 1;
                }
            }
        }
    }
    assert_eq!(counted, 26 * 365 + 10);
}

#[test]
fn a_start_and_end_pair_survives_the_round_trip() {
    let start = date(2024, 3, 1);
    let end = date(2024, 3, 5);
    let texts = (start.to_text(), end.to_text());
    assert_eq!(
        (CalendarDate::parse(&texts.0), CalendarDate::parse(&texts.1)),
        (Some(start), Some(end))
    );
}

#[test]
fn text_is_the_one_chrono_writes() {
    let mut counted = 0;
    for year in [
        -262143, -10000, -9999, -1000, -999, -100, -44, -1, 0, 1, 44, 999, 1000, 1970, 2024, 9999,
        10000, 123456, 262142,
    ] {
        for month in 0..=13 {
            for day in 0..=32 {
                let ours = CalendarDate::new(year, month, day);
                let theirs = chrono::NaiveDate::from_ymd_opt(year, month, day);
                assert_eq!(ours.is_some(), theirs.is_some(), "{year} {month} {day}");
                if let (Some(ours), Some(theirs)) = (ours, theirs) {
                    assert_eq!(ours.to_text(), theirs.to_string());
                    counted += 1;
                }
            }
        }
    }
    assert!(counted > 19 * 365);
}

#[test]
fn parse_reads_back_what_chrono_writes() {
    for (year, month, day) in [(2024, 2, 29), (-44, 3, 15), (12345, 6, 7), (1, 1, 1)] {
        let theirs = chrono::NaiveDate::from_ymd_opt(year, month, day).unwrap();
        assert_eq!(
            CalendarDate::parse(&theirs.to_string()),
            Some(CalendarDate { year, month, day })
        );
    }
}
