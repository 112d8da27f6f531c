//! Reading and updating the people of an event.

use crate::model::{people_response, person_response, ApiError, Person, PersonResponse};
use vstd::prelude::*;

verus! {

/// The answer to a request for one person, given what the adaptor found.
pub open spec fn found_person<E>(found: Result<Option<Person>, E>) -> Result<
    PersonResponse,
    ApiError<E>,
> {
    match found {
        Ok(Some(person)) => Ok(person_response(person)),
        Ok(None) => Err(ApiError::NotFound),
        Err(error) => Err(ApiError::AdaptorError(error)),
    }
}

/// The answer to an update of one person, given what the adaptor stored.
pub open spec fn updated_person<E>(updated: Result<Person, E>) -> Result<
    PersonResponse,
    ApiError<E>,
> {
    match updated {
        Ok(person) => Ok(person_response(person)),
        Err(error) => Err(ApiError::AdaptorError(error)),
    }
}

/// Answers a request for the people of an event from what the adaptor's
/// `get_people` returned: everyone's public shape, in the adaptor's order.
pub fn get_people<E>(found: Result<Vec<Person>, E>) -> (r: Result<Vec<PersonResponse>, ApiError<E>>)
    ensures
        match found {
            Ok(people) => r matches Ok(shown) && shown@ == people_response(people@),
            Err(error) => r == Err::<Vec<PersonResponse>, _>(ApiError::AdaptorError(error)),
        },
{
    match found {
        Ok(people) => {
            let ghost all = people@;
            let mut shown: Vec<PersonResponse> = Vec::new();
            for person in it: people
                invariant
                    it.seq() == all,
                    shown@ == people_response(all.take(it.index() as int)),
            {
                proof {
                    assert(all.take(it.index() + 1) =~= all.take(it.index() as int).push(person));
                    assert(people_response(all.take(it.index() + 1)) =~= people_response(
                        all.take(it.index() as int),
                    ).push(person_response(person)));
                }
                shown.push(person.into_response());
            }
            assert(all.take(all.len() as int) =~= all);
            Ok(shown)
        },
        Err(error) => Err(ApiError::AdaptorError(error)),
    }
}

/// Answers a request for one person from what the adaptor's `get_person`
/// returned: not-found where the event has nobody of that name.
pub fn get_person<E>(found: Result<Option<Person>, E>) -> (r: Result<PersonResponse, ApiError<E>>)
    ensures
        r == found_person(found),
{
    match found {
        Ok(Some(person)) => Ok(person.into_response()),
        Ok(None) => Err(ApiError::NotFound),
        Err(error) => Err(ApiError::AdaptorError(error)),
    }
}

/// Answers an update of one person from what the adaptor's `update_person`
/// returned: the person as stored.
pub fn update_person<E>(updated: Result<Person, E>) -> (r: Result<PersonResponse, ApiError<E>>)
    ensures
        r == updated_person(updated),
{
    match updated {
        Ok(person) => Ok(person.into_response()),
        Err(error) => Err(ApiError::AdaptorError(error)),
    }
}

} // verus!
