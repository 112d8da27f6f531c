//! The data the service handles and the shapes it answers with.

use crate::time::Timestamp;
use vstd::prelude::*;

verus! {

/// A scheduling session: candidate times under an identifier that can be shared.
#[derive(Clone, Debug, PartialEq, Eq)]
pub struct Event {
    pub id: String,
    pub name: String,
    pub created_at: Timestamp,
    pub visited_at: Timestamp,
    pub times: Vec<String>,
    pub timezone: String,
}

/// An attendee's availability within one event.
#[derive(Clone, Debug, PartialEq, Eq)]
pub struct Person {
    pub name: String,
    pub availability: Vec<String>,
}

/// The service-wide counters.
#[derive(Clone, Copy, Debug, PartialEq, Eq, Structural)]
pub struct Stats {
    pub event_count: u64,
}

/// What one retention sweep removed.
#[derive(Clone, Copy, Debug, PartialEq, Eq, Structural)]
pub struct CleanupResult {
    pub event_count: u64,
    pub person_count: u64,
}

/// What a client sends to create an event.
#[derive(Clone, Debug, PartialEq, Eq)]
pub struct EventInput {
    pub name: Option<String>,
    pub times: Vec<String>,
    pub timezone: String,
}

/// What a client is told of an event.
#[derive(Clone, Debug, PartialEq, Eq)]
pub struct EventResponse {
    pub id: String,
    pub name: String,
    pub times: Vec<String>,
    pub timezone: String,
    pub created_at: i64,
}

/// What a client is told of a person.
#[derive(Clone, Debug, PartialEq, Eq)]
pub struct PersonResponse {
    pub name: String,
    pub availability: Vec<String>,
}

/// What a client is told of the counters.
#[derive(Clone, Copy, Debug, PartialEq, Eq, Structural)]
pub struct StatsResponse {
    pub event_count: u64,
}

/// Why a request failed. `E` is the storage adaptor's own error.
#[derive(Clone, Debug, PartialEq, Eq)]
pub enum ApiError<E> {
    /// The entity asked for does not exist.
    NotFound,
    /// The cleanup key is missing or wrong.
    NotAuthorized,
    /// The storage adaptor failed.
    AdaptorError(E),
}

/// The response that shows `event`.
pub open spec fn event_response(event: Event) -> EventResponse {
    EventResponse {
        id: event.id,
        name: event.name,
        times: event.times,
        timezone: event.timezone,
        created_at: event.created_at.seconds,
    }
}

/// The response that shows `person`.
pub open spec fn person_response(person: Person) -> PersonResponse {
    PersonResponse { name: person.name, availability: person.availability }
}

/// The responses that show `people`, in their order.
pub open spec fn people_response(people: Seq<Person>) -> Seq<PersonResponse> {
    people.map_values(|person: Person| person_response(person))
}

/// The HTTP status that stands for each failure.
pub open spec fn status_of<E>(error: ApiError<E>) -> u16 {
    match error {
        ApiError::NotFound => 404,
        ApiError::NotAuthorized => 401,
        ApiError::AdaptorError(_) => 500,
    }
}

impl Event {
    /// Turns the event into what a client is told of it.
    pub fn into_response(self) -> (response: EventResponse)
        ensures
            response == event_response(self),
    {
        EventResponse {
            id: self.id,
            name: self.name,
            times: self.times,
            timezone: self.timezone,
            created_at: self.created_at.seconds,
        }
    }
}

impl Person {
    /// Turns the person into what a client is told of them.
    pub fn into_response(self) -> (response: PersonResponse)
        ensures
            response == person_response(self),
    {
        PersonResponse { name: self.name, availability: self.availability }
    }
}

impl<E> ApiError<E> {
    /// The HTTP status to answer with.
    pub fn status(&self) -> (code: u16)
        ensures
            code == status_of(*self),
    {
        match self {
            ApiError::NotFound => 404,
            ApiError::NotAuthorized => 401,
            ApiError::AdaptorError(_) => 500,
        }
    }
}

} // verus!
