//! The gateway's decisions for one request. The caller does the outside work
//! between them: it fetches the feed that [`handle_request`] asks for and
//! hands the outcome to [`answer`].

use crate::calendar::{parsed_feed, read_components, Component};
use crate::failure::Failure;
use crate::json::json_dates;
use crate::middleware::{api_key_auth, auth_verdict};
use crate::reservations::{
    all_complete, events_of, extract_dates, feed_dates, lemma_entry_per_event, lemma_no_events,
    dates_of, DatePair,
};
use crate::response::{dates_reply, failure_reply, outcome_reply, Reply, Response};
use crate::secrets::{api_key_name, feed_address, feed_secret_name, lookup, secret_entries};
use shuttle_runtime::SecretStore;
use vstd::prelude::*;

verus! {

/// What is to be done next for a request.
#[derive(Debug, PartialEq, Eq)]
pub enum Action {
    /// Fetch the calendar feed at this address, then call [`answer`].
    Fetch(String),
    /// Answer at once; nothing is fetched.
    Respond(Response),
}

/// What an [`Action`] holds.
pub enum Plan {
    Fetch(Seq<char>),
    Respond(Reply),
}

impl View for Action {
    type V = Plan;

    open spec fn view(&self) -> Plan {
        match self {
            Action::Fetch(address) => Plan::Fetch(address@),
            Action::Respond(response) => Plan::Respond(response@),
        }
    }
}

/// The plan for an apartment's dates: fetch the feed whose address the store
/// holds under the apartment's secret name, or answer that none is
/// configured.
pub open spec fn feed_plan(entries: Map<Seq<char>, Seq<char>>, id: u8) -> Plan {
    match lookup(entries, feed_secret_name(id)) {
        Some(address) => Plan::Fetch(address),
        None => Plan::Respond(failure_reply(Failure::MissingFeedAddress)),
    }
}

/// The plan for a whole request: the API key is compared first, and only a
/// request that passes gets the plan for its apartment.
pub open spec fn request_plan(
    entries: Map<Seq<char>, Seq<char>>,
    header: Option<Seq<char>>,
    id: u8,
) -> Plan {
    match auth_verdict(entries, header) {
        Ok(_) => feed_plan(entries, id),
        Err(failure) => Plan::Respond(failure_reply(failure)),
    }
}

/// The answer for a feed, given what parsing its text came to.
pub open spec fn components_reply(parsed: Option<Seq<Component>>) -> Reply {
    outcome_reply(feed_dates(parsed))
}

/// The answer for what fetching the feed came to: `None` for a fetch that
/// failed, else the text that was fetched.
pub open spec fn feed_reply(fetched: Option<Seq<char>>) -> Reply {
    match fetched {
        Some(text) => components_reply(parsed_feed(text)),
        None => failure_reply(Failure::FeedUnavailable),
    }
}

/// Begins the request for the dates of apartment `id`: finds the address of
/// its calendar feed.
pub fn get_apartment_ics(store: &SecretStore, id: u8) -> (action: Action)
    ensures
        action@ == feed_plan(secret_entries(*store), id),
{
    match feed_address(store, id) {
        Some(address) => Action::Fetch(address),
        None => Action::Respond(Response::failure(Failure::MissingFeedAddress)),
    }
}

/// Begins a request as the router does: first the API key, then the handler.
/// `header` is the value of the request's `x-api-key` header, if it has one.
pub fn handle_request(store: &SecretStore, header: Option<&str>, id: u8) -> (action: Action)
    ensures
        action@ == request_plan(secret_entries(*store), header.deep_view(), id),
{
    match api_key_auth(store, header) {
        Ok(_) => get_apartment_ics(store, id),
        Err(failure) => Action::Respond(Response::failure(failure)),
    }
}

/// The answer for a parsed feed: `None` stands for a text that was no
/// calendar.
pub fn respond(parsed: Option<&Vec<Component>>) -> (response: Response)
    ensures
        response@ == components_reply(
            match parsed {
                Some(components) => Some(components@),
                None => None,
            },
        ),
{
    let outcome = match parsed {
        Some(components) => extract_dates(components),
        None => Err(Failure::MalformedCalendar),
    };
    match outcome {
        Ok(list) => Response::dates(&list),
        Err(failure) => Response::failure(failure),
    }
}

/// Ends a request: the answer for what fetching the feed came to. `None`
/// stands for a fetch that failed, `Some` holds the text of the feed.
pub fn answer(fetched: Option<&str>) -> (response: Response)
    ensures
        response@ == feed_reply(fetched.deep_view()),
{
    match fetched {
        Some(text) => {
            let parsed = read_components(text);
            respond(parsed.as_ref())
        },
        None => Response::failure(Failure::FeedUnavailable),
    }
}

/// A feed whose events are all complete is answered with 200 and a body of
/// exactly one entry for each event, the k-th entry holding the dates of the
/// k-th event of the document.
pub proof fn lemma_one_entry_per_event(components: Seq<Component>)
    requires
        all_complete(components),
    ensures
        components_reply(Some(components)).status == 200,
        exists|list: Seq<DatePair>|
            {
                &&& components_reply(Some(components)).body == #[trigger] json_dates(list)
                &&& list.len() == events_of(components).len()
                &&& forall|k: int|
                    0 <= k < list.len() ==> #[trigger] list[k] == dates_of(
                        events_of(components)[k],
                    )
            },
{
    lemma_entry_per_event(components);
    let list = feed_dates(Some(components))->Ok_0;
    assert(components_reply(Some(components)).body == json_dates(list));
}

/// A request without the expected API key is answered with 401 and nothing
/// is fetched for it, whatever apartment it asks for: without a header, or
/// with one that differs from the key that the store holds.
pub proof fn lemma_unauthorized_never_fetches(
    entries: Map<Seq<char>, Seq<char>>,
    header: Option<Seq<char>>,
    id: u8,
)
    requires
        entries.contains_key(api_key_name()),
        header != Some(entries[api_key_name()]),
    ensures
        request_plan(entries, header, id) == Plan::Respond(
            Reply { status: 401, body: Seq::empty() },
        ),
{
}

/// A request with the configured API key, for an apartment whose feed
/// address the store holds, leads to the fetch of that address.
pub proof fn lemma_authorized_request_fetches(
    entries: Map<Seq<char>, Seq<char>>,
    header: Option<Seq<char>>,
    id: u8,
)
    requires
        entries.contains_key(api_key_name()),
        header == Some(entries[api_key_name()]),
        entries.contains_key(feed_secret_name(id)),
    ensures
        request_plan(entries, header, id) == Plan::Fetch(entries[feed_secret_name(id)]),
{
}

/// Only a request that presents the configured API key has its feed fetched.
pub proof fn lemma_fetch_needs_the_key(
    entries: Map<Seq<char>, Seq<char>>,
    header: Option<Seq<char>>,
    id: u8,
)
    requires
        request_plan(entries, header, id) is Fetch,
    ensures
        entries.contains_key(api_key_name()),
        header == Some(entries[api_key_name()]),
        entries.contains_key(feed_secret_name(id)),
        request_plan(entries, header, id) == Plan::Fetch(entries[feed_secret_name(id)]),
{
}

/// A calendar without events is answered with 200 and the empty array.
pub proof fn lemma_no_events_empty_array(components: Seq<Component>)
    requires
        forall|i: int| 0 <= i < components.len() ==> !(#[trigger] components[i] is Event),
    ensures
        components_reply(Some(components)) == (Reply { status: 200, body: seq!['[', ']'] }),
{
    lemma_no_events(components);
    assert(json_dates(Seq::<DatePair>::empty()) =~= seq!['[', ']']);
}

/// Two identical requests against an unchanged feed get the same answer,
/// character for character: an answer depends on nothing but the store's
/// secrets, the request and the text that was fetched.
pub proof fn lemma_same_request_same_answer(
    first_action: Action,
    second_action: Action,
    first: Response,
    second: Response,
    entries: Map<Seq<char>, Seq<char>>,
    header: Option<Seq<char>>,
    id: u8,
    fetched: Option<Seq<char>>,
)
    requires
        first_action@ == request_plan(entries, header, id),
        second_action@ == request_plan(entries, header, id),
        first@ == feed_reply(fetched),
        second@ == feed_reply(fetched),
    ensures
        first_action@ == second_action@,
        first@.status == second@.status,
        first@.body == second@.body,
{
}

} // verus!
