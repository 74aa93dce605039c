//! Reading an iCalendar document: the text is parsed by the icalendar crate,
//! and each of its components handed over as a plain [`Component`].

use crate::date::CalendarDate;
use chrono::Datelike;
use icalendar::{Calendar, CalendarComponent, Component as _, DatePerhapsTime};
use std::str::FromStr;
use vstd::prelude::*;

verus! {

/// One component of a calendar, reduced to what a reservation needs: whether
/// it is an event and, if so, the days on which it starts and ends, where the
/// event gives them.
#[derive(Clone, Copy, Debug, PartialEq, Eq, Structural)]
pub enum Component {
    /// An event (`VEVENT`).
    Event { start: Option<CalendarDate>, end: Option<CalendarDate> },
    /// Anything else: a to-do, a venue, a time zone.
    Other,
}

/// A parsed calendar of the icalendar crate. A value of it is opaque here and
/// read only through [`component_count`] and [`component_at`].
#[verifier::external_type_specification]
#[verifier::external_body]
pub struct ExCalendar(icalendar::Calendar);

/// A component of the icalendar crate. Verus asks for the declaration because
/// a calendar dereferences to a vector of them; no value of it is used here.
#[verifier::external_type_specification]
#[verifier::external_body]
pub struct ExCalendarComponent(icalendar::CalendarComponent);

/// The components of a parsed calendar, in the order of the document.
pub uninterp spec fn calendar_components(calendar: Calendar) -> Seq<Component>;

/// The components that the icalendar crate reads out of a text, or `None`
/// where it refuses the text.
pub uninterp spec fn parsed_feed(text: Seq<char>) -> Option<Seq<Component>>;

/// Parses a text with `Calendar::from_str` of the icalendar crate. The
/// outcome depends on the text alone: the same text is always refused, or
/// always gives the same components.
#[verifier::external_body]
fn parse_calendar(text: &str) -> (parsed: Result<Calendar, String>)
    ensures
        match parsed {
            Ok(calendar) => parsed_feed(text@) == Some(calendar_components(calendar)),
            Err(_) => parsed_feed(text@) is None,
        },
{
    Calendar::from_str(text)
}

/// The length of the `components` field of a calendar.
#[verifier::external_body]
fn component_count(calendar: &Calendar) -> (count: usize)
    ensures
        count == calendar_components(*calendar).len(),
{
    calendar.components.len()
}

/// The component at position `index` of the `components` field. Of an event
/// it keeps what `get_start` and `get_end` return, each reduced to its day by
/// `date_naive`, which drops the time of day and looks at no time zone.
#[verifier::external_body]
fn component_at(calendar: &Calendar, index: usize) -> (component: Component)
    requires
        index < calendar_components(*calendar).len(),
    ensures
        component == calendar_components(*calendar)[index as int],
{
    let day = |time: DatePerhapsTime| {
        let date = time.date_naive();
        CalendarDate { year: date.year(), month: date.month(), day: date.day() }
    };
    match &calendar.components[index] {
        CalendarComponent::Event(event) => Component::Event {
            start: event.get_start().map(day),
            end: event.get_end().map(day),
        },
        _ => Component::Other,
    }
}

/// Parses a calendar feed and lists its components in the order of the
/// document; `None` where the text is not an iCalendar document.
pub fn read_components(text: &str) -> (components: Option<Vec<Component>>)
    ensures
        match components {
            Some(list) => parsed_feed(text@) == Some(list@),
            None => parsed_feed(text@) is None,
        },
{
    match parse_calendar(text) {
        Err(_) => None,
        Ok(calendar) => {
            let count = component_count(&calendar);
            let mut list: Vec<Component> = Vec::new();
            let mut index: usize = 0;
            while index < count
                invariant
                    index <= count,
                    count == calendar_components(calendar).len(),
                    list@ == calendar_components(calendar).take(index as int),
                decreases count - index,
            {
                let component = component_at(&calendar, index);
                list.push(component);
                index = index + 1;
                assert(list@ =~= calendar_components(calendar).take(index as int));
            }
            assert(list@ =~= calendar_components(calendar));
            Some(list)
        },
    }
}

} // verus!
