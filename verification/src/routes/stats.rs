//! Reading the counters.

use crate::model::{ApiError, Stats, StatsResponse};
use vstd::prelude::*;

verus! {

/// The answer to a request for the counters, given what the adaptor read.
pub open spec fn read_stats<E>(read: Result<Stats, E>) -> Result<StatsResponse, ApiError<E>> {
    match read {
        Ok(stats) => Ok(StatsResponse { event_count: stats.event_count }),
        Err(error) => Err(ApiError::AdaptorError(error)),
    }
}

/// Answers a request for the counters from what the adaptor's `get_stats`
/// returned.
pub fn get_stats<E>(read: Result<Stats, E>) -> (r: Result<StatsResponse, ApiError<E>>)
    ensures
        r == read_stats(read),
{
    match read {
        Ok(stats) => Ok(StatsResponse { event_count: stats.event_count }),
        Err(error) => Err(ApiError::AdaptorError(error)),
    }
}

} // verus!
