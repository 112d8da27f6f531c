//! The retention sweep: who may run it, and what it deletes.

use crate::model::{ApiError, CleanupResult};
use crate::time::{
    current_time, cutoff, earlier, expired, has_cutoff, retention_cutoff, Timestamp,
};
use vstd::prelude::*;

verus! {

/// The text of an optional key.
pub open spec fn key_text(key: Option<&str>) -> Option<Seq<char>> {
    match key {
        Some(key) => Some(key@),
        None => None,
    }
}

/// Whether a caller that presents `presented` may run the sweep when
/// `configured` is the operator's key. With no key configured, or an empty
/// one, everyone may. Otherwise the caller must present that very key.
pub open spec fn authorized(configured: Option<Seq<char>>, presented: Option<Seq<char>>) -> bool {
    match configured {
        Some(key) => key.len() == 0 || presented == Some(key),
        None => true,
    }
}

/// What a sweep that runs at `now` does: it deletes what was last visited
/// before the cutoff, or is refused.
pub open spec fn sweep<E>(
    configured: Option<Seq<char>>,
    presented: Option<Seq<char>>,
    now: Timestamp,
) -> Result<Timestamp, ApiError<E>> {
    if authorized(configured, presented) {
        Ok(cutoff(now))
    } else {
        Err(ApiError::NotAuthorized)
    }
}

/// The answer to a sweep, given what the adaptor's `delete_events` returned.
pub open spec fn swept<E>(deleted: Result<CleanupResult, E>) -> Result<CleanupResult, ApiError<E>> {
    match deleted {
        Ok(counts) => Ok(counts),
        Err(error) => Err(ApiError::AdaptorError(error)),
    }
}

/// Tells whether a caller may run the sweep.
pub fn is_authorized(configured_key: Option<&str>, presented_key: Option<&str>) -> (r: bool)
    ensures
        r == authorized(key_text(configured_key), key_text(presented_key)),
{
    match configured_key {
        Some(key) => {
            if key.is_empty() {
                true
            } else {
                match presented_key {
                    Some(presented) => *presented == *key,
                    None => false,
                }
            }
        },
        None => true,
    }
}

/// Decides a sweep that runs at `now`: the cutoff to hand to the adaptor's
/// `delete_events`, or not-authorized, in which case nothing is deleted.
pub fn cleanup_at<E>(
    configured_key: Option<&str>,
    presented_key: Option<&str>,
    now: Timestamp,
) -> (r: Result<Timestamp, ApiError<E>>)
    requires
        has_cutoff(now),
    ensures
        r == sweep::<E>(key_text(configured_key), key_text(presented_key), now),
{
    if is_authorized(configured_key, presented_key) {
        Ok(retention_cutoff(now))
    } else {
        Err(ApiError::NotAuthorized)
    }
}

/// Decides a sweep that runs now. A caller that is not authorized is refused
/// and nothing is deleted; every other caller gets the cutoff that lies the
/// retention window before the clock's reading.
pub fn cleanup<E>(configured_key: Option<&str>, presented_key: Option<&str>) -> (r: Result<
    Timestamp,
    ApiError<E>,
>)
    ensures
        exists|now: Timestamp|
            now.seconds >= 0 && r == #[trigger] sweep::<E>(
                key_text(configured_key),
                key_text(presented_key),
                now,
            ),
{
    let now = current_time();
    cleanup_at(configured_key, presented_key, now)
}

/// Answers a sweep from what the adaptor's `delete_events` returned: the
/// counts of what was removed, or the adaptor's failure as it came.
pub fn cleanup_report<E>(deleted: Result<CleanupResult, E>) -> (r: Result<
    CleanupResult,
    ApiError<E>,
>)
    ensures
        r == swept(deleted),
{
    match deleted {
        Ok(counts) => Ok(counts),
        Err(error) => Err(ApiError::AdaptorError(error)),
    }
}

/// With no key configured, or an empty one, the sweep is open to every
/// caller, whatever they present.
pub proof fn lemma_open_without_key(presented: Option<Seq<char>>)
    ensures
        authorized(None, presented),
        authorized(Some(Seq::empty()), presented),
{
}

/// With a key configured, the sweep is open to those who present it and to
/// nobody else.
pub proof fn lemma_closed_with_key(key: Seq<char>, presented: Option<Seq<char>>)
    requires
        key.len() > 0,
    ensures
        authorized(Some(key), presented) <==> presented == Some(key),
{
}

/// What a sweep hands to the adaptor for deletion is what has outlived the
/// retention window: something last visited at `visited` lies before the
/// cutoff of an authorized sweep exactly if it is expired at `now`, and a
/// sweep that is refused hands over no cutoff at all.
pub proof fn lemma_sweep_takes_the_expired<E>(
    configured: Option<Seq<char>>,
    presented: Option<Seq<char>>,
    now: Timestamp,
    visited: Timestamp,
)
    ensures
        (sweep::<E>(configured, presented, now) matches Ok(before) && earlier(visited, before)) <==> (
        authorized(configured, presented) && expired(visited, now)),
        !authorized(configured, presented) ==> sweep::<E>(configured, presented, now) is Err,
{
}

} // verus!
