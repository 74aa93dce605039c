//! The ways a request can fail, each with the HTTP status it is answered with.

use vstd::prelude::*;

verus! {

/// Why a request was not answered with dates.
#[derive(Clone, Copy, Debug, PartialEq, Eq, Structural)]
pub enum Failure {
    /// The request carried no API key, or not the expected one.
    Unauthorized,
    /// The secret store holds no API key to compare with.
    MissingApiKey,
    /// The secret store holds no feed address for the apartment.
    MissingFeedAddress,
    /// The calendar feed could not be fetched or read as text.
    FeedUnavailable,
    /// The fetched text is not an iCalendar document.
    MalformedCalendar,
    /// An event of the calendar lacks its start or its end.
    IncompleteEvent,
}

impl Failure {
    /// The HTTP status of the failure: 401 for a refused key, 500 where the
    /// configuration is at fault, 502 where the upstream feed is.
    pub open spec fn status_code(self) -> u16 {
        match self {
            Failure::Unauthorized => 401,
            Failure::MissingApiKey => 500,
            Failure::MissingFeedAddress => 500,
            Failure::FeedUnavailable => 502,
            Failure::MalformedCalendar => 502,
            Failure::IncompleteEvent => 502,
        }
    }

    /// The words that the error body gives for the failure.
    pub open spec fn message_text(self) -> Seq<char> {
        match self {
            Failure::Unauthorized => "unauthorized"@,
            Failure::MissingApiKey => "api key is not configured"@,
            Failure::MissingFeedAddress => "calendar feed is not configured"@,
            Failure::FeedUnavailable => "calendar feed could not be fetched"@,
            Failure::MalformedCalendar => "calendar feed could not be parsed"@,
            Failure::IncompleteEvent => "calendar event lacks a start or an end"@,
        }
    }

    /// The HTTP status of the failure.
    pub fn status(&self) -> (code: u16)
        ensures
            code == self.status_code(),
    {
        match self {
            Failure::Unauthorized => 401,
            Failure::MissingApiKey => 500,
            Failure::MissingFeedAddress => 500,
            Failure::FeedUnavailable => 502,
            Failure::MalformedCalendar => 502,
            Failure::IncompleteEvent => 502,
        }
    }

    /// The words that the error body gives for the failure.
    pub fn message(&self) -> (words: &'static str)
        ensures
            words@ == self.message_text(),
    {
        match self {
            Failure::Unauthorized => "unauthorized",
            Failure::MissingApiKey => "api key is not configured",
            Failure::MissingFeedAddress => "calendar feed is not configured",
            Failure::FeedUnavailable => "calendar feed could not be fetched",
            Failure::MalformedCalendar => "calendar feed could not be parsed",
            Failure::IncompleteEvent => "calendar event lacks a start or an end",
        }
    }
}

} // verus!
