//! Core of a small calendar gateway: it authenticates a request, names the
//! secret that holds an apartment's feed address, reads the reservation events
//! out of the fetched iCalendar text and renders their dates as a response.

pub mod calendar;
pub mod date;
pub mod failure;
pub mod handler;
pub mod json;
pub mod middleware;
pub mod reservations;
pub mod response;
pub mod secrets;
pub mod text;
