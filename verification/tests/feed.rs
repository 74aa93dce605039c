use apartment_ics::calendar::{read_components, Component};
use apartment_ics::date::CalendarDate;
use apartment_ics::failure::Failure;
use apartment_ics::reservations::{extract_dates, get_reserved_dates, ReservedDates};

fn day(year: i32, month: u32, day: u32) -> Option<CalendarDate> {
    Some(CalendarDate { year, month, day })
}

fn event(start: Option<CalendarDate>, end: Option<CalendarDate>) -> Component {
    Component::Event { start, end }
}

fn pair(start: &str, end: &str) -> ReservedDates {
    ReservedDates { start_date: start.to_owned(), end_date: end.to_owned() }
}

fn calendar(body: &[&str]) -> String {
    let mut text = String::from("BEGIN:VCALENDAR\r\nVERSION:2.0\r\nPRODID:-//Host//Calendar//EN\r\n");
    for line in body {
        text.push_str(line);
        text.push_str("\r\n");
    }
    text.push_str("END:VCALENDAR\r\n");
    text
}

#[test]
fn an_event_is_read_with_the_days_of_its_start_and_end() {
    let text = calendar(&[
        "BEGIN:VEVENT",
        "UID:one@example.org",
        "DTSTART:20240301T000000Z",
        "DTEND:20240305T000000Z",
        "SUMMARY:Reserved",
        "END:VEVENT",
    ]);
    assert_eq!(
        read_components(&text),
        Some(vec![event(day(2024, 3, 1), day(2024, 3, 5))])
    );
}

#[test]
fn the_time_of_day_and_the_time_zone_are_dropped() {
    let text = calendar(&[
        "BEGIN:VEVENT",
        "DTSTART:20240301T233000Z",
        "DTEND:20240302T003000Z",
        "END:VEVENT",
        "BEGIN:VEVENT",
        "DTSTART;TZID=Pacific/Auckland:20240610T235959",
        "DTEND;TZID=America/Los_Angeles:20240611T000000",
        "END:VEVENT",
        "BEGIN:VEVENT",
        "DTSTART:20241231T120000",
        "DTEND:20250101T120000",
        "END:VEVENT",
    ]);
    assert_eq!(
        read_components(&text),
        Some(vec![
            event(day(2024, 3, 1), day(2024, 3, 2)),
            event(day(2024, 6, 10), day(2024, 6, 11)),
            event(day(2024, 12, 31), day(2025, 1, 1)),
        ])
    );
}

#[test]
fn whole_day_events_are_read_by_their_dates() {
    let text = calendar(&[
        "BEGIN:VEVENT",
        "DTEND;VALUE=DATE:20240820",
        "DTSTART;VALUE=DATE:20240815",
        "UID:stay@example.org",
        "SUMMARY:Reserved",
        "END:VEVENT",
    ]);
    assert_eq!(
        read_components(&text),
        Some(vec![event(day(2024, 8, 15), day(2024, 8, 20))])
    );
}

#[test]
fn components_come_in_the_order_of_the_document() {
    let text = calendar(&[
        "BEGIN:VTIMEZONE",
        "TZID:Europe/Berlin",
        "END:VTIMEZONE",
        "BEGIN:VEVENT",
        "DTSTART;VALUE=DATE:20240701",
        "DTEND;VALUE=DATE:20240703",
        "END:VEVENT",
        "BEGIN:VTODO",
        "DTSTART;VALUE=DATE:20240101",
        "SUMMARY:Clean",
        "END:VTODO",
        "BEGIN:VEVENT",
        "DTSTART;VALUE=DATE:20240105",
        "DTEND;VALUE=DATE:20240109",
        "END:VEVENT",
        "BEGIN:VVENUE",
        "END:VVENUE",
    ]);
    assert_eq!(
        read_components(&text),
        Some(vec![
            Component::Other,
            event(day(2024, 7, 1), day(2024, 7, 3)),
            Component::Other,
            event(day(2024, 1, 5), day(2024, 1, 9)),
            Component::Other,
        ])
    );
}

#[test]
fn an_event_may_lack_its_start_or_its_end() {
    let text = calendar(&[
        "BEGIN:VEVENT",
        "DTSTART;VALUE=DATE:20240701",
        "END:VEVENT",
        "BEGIN:VEVENT",
        "DTEND;VALUE=DATE:20240703",
        "END:VEVENT",
        "BEGIN:VEVENT",
        "SUMMARY:Nothing",
        "END:VEVENT",
        "BEGIN:VEVENT",
        "DTSTART:soon",
        "DTEND;VALUE=DATE:20241301",
        "END:VEVENT",
    ]);
    assert_eq!(
        read_components(&text),
        Some(vec![
            event(day(2024, 7, 1), None),
            event(None, day(2024, 7, 3)),
            event(None, None),
            event(None, None),
        ])
    );
}

#[test]
fn a_calendar_without_components_is_read_as_empty() {
    assert_eq!(read_components(&calendar(&[])), Some(Vec::new()));
}

#[test]
fn folded_lines_and_bare_line_feeds_are_accepted() {
    let text = "BEGIN:VCALENDAR\nBEGIN:VEVENT\nSUMMARY:A long\n  summary\nDTSTART;VALUE=DATE:2024\n 0301\nDTEND;VALUE=DATE:20240305\nEND:VEVENT\nEND:VCALENDAR\n";
    assert_eq!(
        read_components(text),
        Some(vec![event(day(2024, 3, 1), day(2024, 3, 5))])
    );
}

#[test]
fn components_outside_a_calendar_are_read_too() {
    let text = "BEGIN:VEVENT\r\nDTSTART;VALUE=DATE:20240301\r\nDTEND;VALUE=DATE:20240305\r\nEND:VEVENT\r\n";
    assert_eq!(
        read_components(text),
        Some(vec![event(day(2024, 3, 1), day(2024, 3, 5))])
    );
}

#[test]
fn a_text_that_is_no_calendar_is_refused() {
    for text in [
        "",
        "This is not a calendar",
        "BEGIN:",
        "BEGIN:VCALENDAR\r\nBEGIN:VEVENT\r\nEND:VCALENDAR\r\n",
        "BEGIN:VCALENDAR\r\nVERSION:2.0\r\n",
        "<html><body>503</body></html>",
    ] {
        assert_eq!(read_components(text), None, "{text:?}");
        assert_eq!(get_reserved_dates(text), Err(Failure::MalformedCalendar), "{text:?}");
    }
}

#[test]
fn extract_gives_one_pair_for_each_event_in_order() {
    let components = vec![
        Component::Other,
        event(day(2024, 7, 1), day(2024, 7, 3)),
        Component::Other,
        Component::Other,
        event(day(2024, 1, 5), day(2024, 1, 9)),
        event(day(-44, 3, 15), day(12345, 1, 1)),
    ];
    assert_eq!(
        extract_dates(&components),
        Ok(vec![
            pair("2024-07-01", "2024-07-03"),
            pair("2024-01-05", "2024-01-09"),
            pair("-0044-03-15", "+12345-01-01"),
        ])
    );
}

#[test]
fn extract_does_not_ask_that_the_start_comes_first() {
    assert_eq!(
        extract_dates(&vec![event(day(2024, 7, 3), day(2024, 7, 1))]),
        Ok(vec![pair("2024-07-03", "2024-07-01")])
    );
}

#[test]
fn extract_of_no_events_is_empty() {
    assert_eq!(extract_dates(&Vec::new()), Ok(Vec::new()));
    assert_eq!(extract_dates(&vec![Component::Other, Component::Other]), Ok(Vec::new()));
}

#[test]
fn one_incomplete_event_fails_the_whole_calendar() {
    let whole = event(day(2024, 7, 1), day(2024, 7, 3));
    for broken in
        [event(None, day(2024, 7, 3)), event(day(2024, 7, 1), None), event(None, None)]
    {
        assert_eq!(extract_dates(&vec![broken]), Err(Failure::IncompleteEvent));
        assert_eq!(extract_dates(&vec![whole, broken]), Err(Failure::IncompleteEvent));
        assert_eq!(extract_dates(&vec![broken, whole]), Err(Failure::IncompleteEvent));
        assert_eq!(
            extract_dates(&vec![Component::Other, whole, broken, whole]),
            Err(Failure::IncompleteEvent)
        );
    }
}

#[test]
fn reserved_dates_are_read_from_the_text_of_a_feed() {
    let text = calendar(&[
        "BEGIN:VEVENT",
        "DTSTART;VALUE=DATE:20240701",
        "DTEND;VALUE=DATE:20240703",
        "END:VEVENT",
        "BEGIN:VTODO",
        "SUMMARY:Clean",
        "END:VTODO",
        "BEGIN:VEVENT",
        "DTSTART:20240105T150000Z",
        "DTEND:20240109T110000Z",
        "END:VEVENT",
    ]);
    assert_eq!(
        get_reserved_dates(&text),
        Ok(vec![pair("2024-07-01", "2024-07-03"), pair("2024-01-05", "2024-01-09")])
    );
}

#[test]
fn a_feed_with_an_incomplete_event_has_no_reserved_dates() {
    let text = calendar(&[
        "BEGIN:VEVENT",
        "DTSTART;VALUE=DATE:20240701",
        "DTEND;VALUE=DATE:20240703",
        "END:VEVENT",
        "BEGIN:VEVENT",
        "DTSTART;VALUE=DATE:20240801",
        "END:VEVENT",
    ]);
    assert_eq!(get_reserved_dates(&text), Err(Failure::IncompleteEvent));
}

#[test]
fn a_todo_without_dates_fails_nothing() {
    let text = calendar(&["BEGIN:VTODO", "SUMMARY:Clean", "END:VTODO"]);
    assert_eq!(get_reserved_dates(&text), Ok(Vec::new()));
}
