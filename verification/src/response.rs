//! The answer to a request: a status and a body.

use crate::failure::Failure;
use crate::json::{json_dates, json_error, render_dates, render_error};
use crate::reservations::{DatePair, ReservedDates};
use vstd::prelude::*;

verus! {

/// An HTTP response, as far as the gateway decides it.
#[derive(Debug, PartialEq, Eq)]
pub struct Response {
    pub status: u16,
    pub body: String,
}

/// What a [`Response`] holds: the status and the characters of the body.
pub struct Reply {
    pub status: u16,
    pub body: Seq<char>,
}

impl View for Response {
    type V = Reply;

    open spec fn view(&self) -> Reply {
        Reply { status: self.status, body: self.body@ }
    }
}

/// The answer that carries reserved dates: 200 and the dates as a JSON
/// array.
pub open spec fn dates_reply(list: Seq<DatePair>) -> Reply {
    Reply { status: 200, body: json_dates(list) }
}

/// The answer to a failed request: the status of the failure and a JSON
/// object that names it. A refused API key is answered with the bare status:
/// the body stays empty.
pub open spec fn failure_reply(failure: Failure) -> Reply {
    Reply {
        status: failure.status_code(),
        body: if failure == Failure::Unauthorized {
            Seq::empty()
        } else {
            json_error(failure)
        },
    }
}

/// The answer for what extracting the dates came to.
pub open spec fn outcome_reply(outcome: Result<Seq<DatePair>, Failure>) -> Reply {
    match outcome {
        Ok(list) => dates_reply(list),
        Err(failure) => failure_reply(failure),
    }
}

impl Response {
    /// The answer that carries the reserved dates.
    pub fn dates(list: &Vec<ReservedDates>) -> (response: Response)
        ensures
            response@ == dates_reply(list.deep_view()),
    {
        Response { status: 200, body: render_dates(list) }
    }

    /// The answer to a failed request.
    pub fn failure(failure: Failure) -> (response: Response)
        ensures
            response@ == failure_reply(failure),
    {
        let body = match failure {
            Failure::Unauthorized => String::new(),
            _ => render_error(failure),
        };
        Response { status: failure.status(), body }
    }
}

} // verus!
