//! From the components of a calendar to the reserved dates: one pair of
//! dates for each event, in the order of the document.

use crate::calendar::{parsed_feed, read_components, Component};
use crate::date::{date_text, lemma_date_round_trip, parsed_date, CalendarDate};
use crate::failure::Failure;
use vstd::prelude::*;

verus! {

/// The first and the last day of one reservation, each as text.
#[derive(Debug, PartialEq, Eq)]
pub struct ReservedDates {
    pub start_date: String,
    pub end_date: String,
}

/// What a [`ReservedDates`] holds, as two sequences of characters.
pub struct DatePair {
    pub start_date: Seq<char>,
    pub end_date: Seq<char>,
}

impl View for ReservedDates {
    type V = DatePair;

    open spec fn view(&self) -> DatePair {
        DatePair { start_date: self.start_date@, end_date: self.end_date@ }
    }
}

impl DeepView for ReservedDates {
    type V = DatePair;

    open spec fn deep_view(&self) -> DatePair {
        self@
    }
}

/// An event is complete when it gives both its start and its end; what is no
/// event has nothing to give.
pub open spec fn is_complete(component: Component) -> bool {
    match component {
        Component::Event { start, end } => start is Some && end is Some,
        Component::Other => true,
    }
}

/// True when no event among the components lacks its start or its end.
pub open spec fn all_complete(components: Seq<Component>) -> bool {
    forall|i: int| 0 <= i < components.len() ==> is_complete(#[trigger] components[i])
}

/// The events among the components, in their order.
pub open spec fn events_of(components: Seq<Component>) -> Seq<Component> {
    components.filter(|c: Component| c is Event)
}

/// The dates of a complete event, as text.
pub open spec fn dates_of(event: Component) -> DatePair {
    match event {
        Component::Event { start: Some(start), end: Some(end) } => DatePair {
            start_date: date_text(start),
            end_date: date_text(end),
        },
        _ => DatePair { start_date: Seq::empty(), end_date: Seq::empty() },
    }
}

/// The reserved dates of a calendar: the dates of each event, in the order
/// of the events. One event without a start or an end fails the whole
/// calendar.
pub open spec fn reserved_dates(components: Seq<Component>) -> Result<Seq<DatePair>, Failure> {
    if all_complete(components) {
        Ok(events_of(components).map_values(|c: Component| dates_of(c)))
    } else {
        Err(Failure::IncompleteEvent)
    }
}

/// The reserved dates of a feed, given what parsing its text came to: `None`
/// for a text that is no calendar.
pub open spec fn feed_dates(parsed: Option<Seq<Component>>) -> Result<Seq<DatePair>, Failure> {
    match parsed {
        Some(components) => reserved_dates(components),
        None => Err(Failure::MalformedCalendar),
    }
}

/// The events of a sequence with one more component at its end.
pub proof fn lemma_events_of_push(components: Seq<Component>, last: Component)
    ensures
        events_of(components.push(last)) == if last is Event {
            events_of(components).push(last)
        } else {
            events_of(components)
        },
{
    reveal(Seq::filter);
    assert(components.push(last).drop_last() =~= components);
}

/// The events of a sequence cut in two are the events of the first part and
/// then those of the second.
pub proof fn lemma_events_of_add(first: Seq<Component>, second: Seq<Component>)
    ensures
        events_of(first + second) == events_of(first) + events_of(second),
    decreases second.len(),
{
    reveal(Seq::filter);
    if second.len() == 0 {
        assert(first + second =~= first);
        assert(events_of(second) =~= Seq::<Component>::empty());
        assert(events_of(first) + events_of(second) =~= events_of(first));
    } else {
        let shorter = second.drop_last();
        lemma_events_of_add(first, shorter);
        assert(first + second =~= (first + shorter).push(second.last()));
        assert(second =~= shorter.push(second.last()));
        lemma_events_of_push(first + shorter, second.last());
        lemma_events_of_push(shorter, second.last());
        if second.last() is Event {
            assert(events_of(first + second) =~= events_of(first) + events_of(second));
        }
    }
}

/// A calendar whose events are complete yields exactly one entry for each
/// event: as many entries as events, the k-th entry holding the dates of the
/// k-th event.
pub proof fn lemma_entry_per_event(components: Seq<Component>)
    requires
        all_complete(components),
    ensures
        reserved_dates(components) is Ok,
        reserved_dates(components)->Ok_0.len() == events_of(components).len(),
        forall|k: int|
            0 <= k < events_of(components).len() ==> (#[trigger] reserved_dates(
                components,
            )->Ok_0[k]) == dates_of(events_of(components)[k]),
{
}

/// The entries keep the order of the document: the entry of the event at
/// position `i` stands behind as many entries as there are events before
/// position `i`.
pub proof fn lemma_entry_position(components: Seq<Component>, i: int)
    requires
        all_complete(components),
        0 <= i < components.len(),
        components[i] is Event,
    ensures
        reserved_dates(components) is Ok,
        events_of(components.take(i)).len() < reserved_dates(components)->Ok_0.len(),
        reserved_dates(components)->Ok_0[events_of(components.take(i)).len() as int] == dates_of(
            components[i],
        ),
{
    let before = components.take(i);
    let from = components.skip(i);
    let after = components.skip(i + 1);
    assert(components =~= before + from);
    assert(from =~= seq![components[i]] + after);
    lemma_events_of_add(before, from);
    lemma_events_of_add(seq![components[i]], after);
    lemma_events_of_push(Seq::<Component>::empty(), components[i]);
    assert(Seq::<Component>::empty().push(components[i]) =~= seq![components[i]]);
    assert(events_of(Seq::<Component>::empty()) =~= Seq::<Component>::empty()) by {
        reveal(Seq::filter);
    }
    assert(events_of(seq![components[i]]) =~= seq![components[i]]);
}

/// A calendar without events has no reserved dates, and that is no failure.
pub proof fn lemma_no_events(components: Seq<Component>)
    requires
        forall|i: int| 0 <= i < components.len() ==> !(#[trigger] components[i] is Event),
    ensures
        reserved_dates(components) == Ok::<Seq<DatePair>, Failure>(Seq::empty()),
    decreases components.len(),
{
    reveal(Seq::filter);
    if components.len() > 0 {
        lemma_no_events(components.drop_last());
        assert(events_of(components) == events_of(components.drop_last()));
    }
    assert(events_of(components).map_values(|c: Component| dates_of(c)) =~= Seq::<
        DatePair,
    >::empty());
}

/// The entry of an event gives back the event's days: each of its two texts,
/// read as a date, is the day it was written from.
pub proof fn lemma_entry_round_trip(start: CalendarDate, end: CalendarDate)
    requires
        start.is_valid(),
        end.is_valid(),
    ensures
        parsed_date(dates_of(Component::Event { start: Some(start), end: Some(end) }).start_date)
            == Some(start),
        parsed_date(dates_of(Component::Event { start: Some(start), end: Some(end) }).end_date)
            == Some(end),
{
    lemma_date_round_trip(start);
    lemma_date_round_trip(end);
}

/// The text of an optional date, if the date is there.
fn date_string(date: &Option<CalendarDate>) -> (text: Option<String>)
    ensures
        text is Some == date is Some,
        text matches Some(t) ==> t@ == date_text(date->Some_0),
{
    match date {
        Some(date) => Some(date.to_text()),
        None => None,
    }
}

/// Collects the reserved dates of a calendar's components: for each event,
/// in order, its start and its end as text. Fails on the first event that
/// lacks either.
pub fn extract_dates(components: &Vec<Component>) -> (dates: Result<Vec<ReservedDates>, Failure>)
    ensures
        match dates {
            Ok(list) => reserved_dates(components@) == Ok::<Seq<DatePair>, Failure>(
                list.deep_view(),
            ),
            Err(failure) => reserved_dates(components@) == Err::<Seq<DatePair>, Failure>(failure),
        },
{
    let mut list: Vec<ReservedDates> = Vec::new();
    let mut index: usize = 0;
    assert(components@.take(0) =~= Seq::<Component>::empty());
    assert(events_of(Seq::<Component>::empty()) =~= Seq::<Component>::empty()) by {
        reveal(Seq::filter);
    }
    assert(list.deep_view() =~= events_of(components@.take(0)).map_values(
        |c: Component| dates_of(c),
    ));
    while index < components.len()
        invariant
            index <= components@.len(),
            all_complete(components@.take(index as int)),
            list.deep_view() == events_of(components@.take(index as int)).map_values(
                |c: Component| dates_of(c),
            ),
        decreases components@.len() - index,
    {
        let component = &components[index];
        let ghost seen = components@.take(index as int);
        let ghost earlier = list.deep_view();
        proof {
            assert(components@.take(index + 1) =~= seen.push(*component));
            lemma_events_of_push(seen, *component);
        }
        match component {
            Component::Event { start, end } => {
                match (date_string(start), date_string(end)) {
                    (Some(start_date), Some(end_date)) => {
                        let entry = ReservedDates { start_date, end_date };
                        assert(entry@ == dates_of(*component));
                        list.push(entry);
                        assert(list.deep_view() =~= earlier.push(dates_of(*component)));
                        assert(events_of(seen).push(*component).map_values(
                            |c: Component| dates_of(c),
                        ) =~= earlier.push(dates_of(*component)));
                    },
                    _ => {
                        assert(!is_complete(components@[index as int]));
                        return Err(Failure::IncompleteEvent);
                    },
                }
            },
            Component::Other => {},
        }
        assert(all_complete(components@.take(index + 1))) by {
            assert forall|i: int| 0 <= i < index + 1 implies is_complete(
                #[trigger] components@.take(index + 1)[i],
            ) by {
                if i < index {
                    assert(components@.take(index + 1)[i] == seen[i]);
                }
            }
        }
        index = index + 1;
    }
    assert(components@.take(index as int) =~= components@);
    Ok(list)
}

/// Reads the reserved dates out of the text of a calendar feed.
pub fn get_reserved_dates(text: &str) -> (dates: Result<Vec<ReservedDates>, Failure>)
    ensures
        match dates {
            Ok(list) => feed_dates(parsed_feed(text@)) == Ok::<Seq<DatePair>, Failure>(
                list.deep_view(),
            ),
            Err(failure) => feed_dates(parsed_feed(text@)) == Err::<Seq<DatePair>, Failure>(
                failure,
            ),
        },
{
    match read_components(text) {
        Some(components) => extract_dates(&components),
        None => Err(Failure::MalformedCalendar),
    }
}

} // verus!
