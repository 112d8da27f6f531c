//! Reading and creating events.
//!
//! Creating an event takes several calls to the storage adaptor. The caller
//! holds the adaptor and makes the calls; [`create_event`] decides, from the
//! state so far and the adaptor's last answer, what is asked next.

use crate::ident::{candidate_id, slug_for, slug_for_name, suffixed};
use crate::model::{event_response, ApiError, Event, EventInput, EventResponse};
use crate::names::{generate_name, WordLists};
use crate::slug::{degenerate, url_safe};
use crate::text::trimmed;
use crate::time::{current_time, Timestamp};
use vstd::prelude::*;

verus! {

/// The status that answers a creation.
pub const CREATED: u16 = 201;

/// The answer to a request for one event, given what the adaptor found.
pub open spec fn found_event<E>(found: Result<Option<Event>, E>) -> Result<
    EventResponse,
    ApiError<E>,
> {
    match found {
        Ok(Some(event)) => Ok(event_response(event)),
        Ok(None) => Err(ApiError::NotFound),
        Err(error) => Err(ApiError::AdaptorError(error)),
    }
}

/// Answers a request for one event from what the adaptor's `get_event`
/// returned: the event's public shape, not-found where there is none, and the
/// adaptor's failure as it came.
pub fn get_event<E>(found: Result<Option<Event>, E>) -> (r: Result<EventResponse, ApiError<E>>)
    ensures
        r == found_event(found),
{
    match found {
        Ok(Some(event)) => Ok(event.into_response()),
        Ok(None) => Err(ApiError::NotFound),
        Err(error) => Err(ApiError::AdaptorError(error)),
    }
}

/// One lookup made while allocating an identifier, and what the adaptor said.
pub struct Probe {
    pub id: Seq<char>,
    pub existed: bool,
}

/// How far a creation has come.
pub enum Stage {
    /// Nothing was asked of the adaptor yet.
    Fresh { input: EventInput },
    /// The adaptor was asked whether `id` is taken.
    Probing {
        name: String,
        slug: String,
        id: String,
        times: Vec<String>,
        timezone: String,
        now: Timestamp,
    },
    /// The adaptor was asked to store the event.
    Storing,
    /// The adaptor was asked to count the event it stored.
    Counting { event: Event },
    /// The request was answered.
    Finished,
}

/// What the caller does next for a creation.
#[derive(Debug)]
pub enum Step<E> {
    /// Call the adaptor's `get_event` with `id`.
    GetEvent { id: String },
    /// Call the adaptor's `create_event` with `event`.
    CreateEvent { event: Event },
    /// Call the adaptor's `increment_stat_event_count`.
    IncrementStatEventCount,
    /// Answer the request: with a status and the event, or with a failure.
    Respond { result: Result<(u16, EventResponse), ApiError<E>> },
}

/// What the caller reports back to a creation.
#[derive(Debug)]
pub enum Reply<E> {
    /// The adaptor is held and nothing was asked yet.
    Start,
    /// What `get_event` returned.
    Event { found: Result<Option<Event>, E> },
    /// What `create_event` returned.
    Created { stored: Result<Event, E> },
    /// What `increment_stat_event_count` returned.
    Counted { counted: Result<(), E> },
}

/// The state of one creation between two calls to the adaptor.
pub struct Creation {
    stage: Stage,
    words: Ghost<WordLists>,
    slug: Ghost<Seq<char>>,
    probes: Ghost<Seq<Probe>>,
}

/// Whether `reply` is what a creation at `stage` waits for.
pub open spec fn awaited<E>(stage: Stage, reply: Reply<E>) -> bool {
    match stage {
        Stage::Fresh { .. } => reply is Start,
        Stage::Probing { .. } => reply is Event,
        Stage::Storing => reply is Created,
        Stage::Counting { .. } => reply is Counted,
        Stage::Finished => false,
    }
}

/// Whether `name` may be the display name of an event created from
/// `given`: the given name trimmed, or a name drawn from the word lists where
/// none was given or nothing is left of it.
pub open spec fn resolved(words: WordLists, given: Option<String>, name: Seq<char>) -> bool {
    if given is Some && trimmed(given->0@).len() > 0 {
        name == trimmed(given->0@)
    } else {
        words.offers(name)
    }
}

impl Creation {
    /// How far the creation has come.
    pub closed spec fn stage(&self) -> Stage {
        self.stage
    }

    /// The word lists the creation was started with.
    pub closed spec fn words(&self) -> WordLists {
        self.words@
    }

    /// The slug chosen when the creation was started.
    pub closed spec fn slug(&self) -> Seq<char> {
        self.slug@
    }

    /// The lookups answered so far, oldest first.
    pub closed spec fn probes(&self) -> Seq<Probe> {
        self.probes@
    }

    /// Whether an identifier was allocated: the last lookup found it free.
    pub open spec fn allocated(&self) -> bool {
        self.stage() is Storing || self.stage() is Counting
    }

    /// The identifier that was allocated.
    pub open spec fn allocated_id(&self) -> Seq<char>
        recommends
            self.allocated(),
    {
        self.probes().last().id
    }

    #[verifier::type_invariant]
    spec fn inv(&self) -> bool {
        self.wf()
    }

    /// What holds of a creation at every stage. Every identifier that was
    /// looked up is the chosen slug with a number of six digits; the slug is
    /// safe for a URL and, with word lists of ASCII characters, not
    /// degenerate; and only the last lookup can have found its identifier
    /// free, which ends the allocation.
    pub open spec fn wf(&self) -> bool {
        &&& forall|i: int|
            0 <= i < self.probes().len() ==> suffixed(self.slug(), (#[trigger] self.probes()[i]).id)
        &&& match self.stage() {
            Stage::Fresh { .. } => self.probes().len() == 0,
            Stage::Probing { slug, id, .. } => {
                &&& slug@ == self.slug()
                &&& suffixed(slug@, id@)
                &&& url_safe(slug@)
                &&& self.words().ascii() ==> !degenerate(slug@)
                &&& forall|i: int|
                    0 <= i < self.probes().len() ==> (#[trigger] self.probes()[i]).existed
            },
            Stage::Storing | Stage::Counting { .. } => {
                &&& url_safe(self.slug())
                &&& self.words().ascii() ==> !degenerate(self.slug())
                &&& self.probes().len() > 0
                &&& !self.probes().last().existed
                &&& forall|i: int|
                    0 <= i < self.probes().len() - 1 ==> (#[trigger] self.probes()[i]).existed
            },
            Stage::Finished => true,
        }
    }

    /// Begins the creation of an event from what the client sent.
    pub fn new(input: EventInput) -> (state: Creation)
        ensures
            state.wf(),
            state.stage() == (Stage::Fresh { input }),
            state.probes().len() == 0,
    {
        Creation {
            stage: Stage::Fresh { input },
            words: Ghost(arbitrary()),
            slug: Ghost(Seq::empty()),
            probes: Ghost(Seq::empty()),
        }
    }

    /// Tells whether `reply` is what the creation waits for.
    pub fn expects<E>(&self, reply: &Reply<E>) -> (r: bool)
        ensures
            r == awaited(self.stage(), *reply),
    {
        match (&self.stage, reply) {
            (Stage::Fresh { .. }, Reply::Start) => true,
            (Stage::Probing { .. }, Reply::Event { .. }) => true,
            (Stage::Storing, Reply::Created { .. }) => true,
            (Stage::Counting { .. }, Reply::Counted { .. }) => true,
            _ => false,
        }
    }

    /// Tells whether the request was answered.
    pub fn is_finished(&self) -> (r: bool)
        ensures
            r == (self.stage() is Finished),
    {
        match &self.stage {
            Stage::Finished => true,
            _ => false,
        }
    }
}

/// The first step: a display name is resolved, a slug chosen for it, and the
/// adaptor is asked about a first identifier.
pub open spec fn starts<E>(words: WordLists, input: EventInput, next: Creation, step: Step<E>) -> bool {
    &&& next.stage() matches Stage::Probing { name, slug, id, times, timezone, now }
    &&& resolved(words, input.name, name@)
    &&& slug_for_name(words, name@, slug@)
    &&& suffixed(slug@, id@)
    &&& times == input.times
    &&& timezone == input.timezone
    &&& step matches Step::GetEvent { id: asked }
    &&& asked@ == id@
    &&& next.words() == words
    &&& next.slug() == slug@
    &&& next.probes().len() == 0
}

/// The identifier is taken: another one is drawn for the same slug, and the
/// adaptor is asked about it.
pub open spec fn retries<E>(state: Creation, next: Creation, step: Step<E>) -> bool {
    &&& state.stage() matches Stage::Probing { name, slug, id, times, timezone, now }
    &&& next.stage() matches Stage::Probing {
        name: next_name,
        slug: next_slug,
        id: next_id,
        times: next_times,
        timezone: next_timezone,
        now: next_now,
    }
    &&& next_name == name
    &&& next_slug == slug
    &&& next_times == times
    &&& next_timezone == timezone
    &&& next_now == now
    &&& suffixed(slug@, next_id@)
    &&& step matches Step::GetEvent { id: asked }
    &&& asked@ == next_id@
    &&& next.words() == state.words()
    &&& next.slug() == state.slug()
    &&& next.probes() == state.probes().push(Probe { id: id@, existed: true })
}

/// The identifier is free: the event is made, with the moment the creation
/// started as both its timestamps, and handed to the adaptor.
pub open spec fn stores<E>(state: Creation, next: Creation, step: Step<E>) -> bool {
    &&& state.stage() matches Stage::Probing { name, slug, id, times, timezone, now }
    &&& next.stage() is Storing
    &&& step == (Step::<E>::CreateEvent {
        event: Event { id, name, created_at: now, visited_at: now, times, timezone },
    })
    &&& next.words() == state.words()
    &&& next.slug() == state.slug()
    &&& next.probes() == state.probes().push(Probe { id: id@, existed: false })
}

/// The event is stored: the adaptor is asked to count it.
pub open spec fn counts<E>(state: Creation, stored: Event, next: Creation, step: Step<E>) -> bool {
    &&& next.stage() == (Stage::Counting { event: stored })
    &&& step is IncrementStatEventCount
    &&& next.words() == state.words()
    &&& next.slug() == state.slug()
    &&& next.probes() == state.probes()
}

/// The request is answered with `result`.
pub open spec fn responds<E>(
    result: Result<(u16, EventResponse), ApiError<E>>,
    next: Creation,
    step: Step<E>,
) -> bool {
    &&& next.stage() is Finished
    &&& step == (Step::Respond { result })
}

/// What one step of a creation does, for each stage and each answer.
pub open spec fn steps<E>(
    words: WordLists,
    state: Creation,
    reply: Reply<E>,
    next: Creation,
    step: Step<E>,
) -> bool {
    match (state.stage(), reply) {
        (Stage::Fresh { input }, Reply::Start) => starts(words, input, next, step),
        (Stage::Probing { .. }, Reply::Event { found: Ok(Some(_)) }) => retries(state, next, step),
        (Stage::Probing { .. }, Reply::Event { found: Ok(None) }) => stores(state, next, step),
        (Stage::Probing { .. }, Reply::Event { found: Err(error) }) => responds(
            Err(ApiError::AdaptorError(error)),
            next,
            step,
        ),
        (Stage::Storing, Reply::Created { stored: Ok(stored) }) => counts(
            state,
            stored,
            next,
            step,
        ),
        (Stage::Storing, Reply::Created { stored: Err(error) }) => responds(
            Err(ApiError::AdaptorError(error)),
            next,
            step,
        ),
        (Stage::Counting { event }, Reply::Counted { counted: Ok(_) }) => responds(
            Ok((CREATED, event_response(event))),
            next,
            step,
        ),
        (Stage::Counting { .. }, Reply::Counted { counted: Err(error) }) => responds(
            Err(ApiError::AdaptorError(error)),
            next,
            step,
        ),
        _ => false,
    }
}

/// Resolves the display name of a new event: what the client gave, trimmed,
/// or a generated name where that is nothing.
pub fn resolve_name(given: Option<String>, words: &WordLists) -> (name: String)
    ensures
        resolved(*words, given, name@),
{
    match given {
        Some(text) => {
            let kept = text.as_str().trim();
            if kept.is_empty() {
                generate_name(words)
            } else {
                kept.to_owned()
            }
        },
        None => generate_name(words),
    }
}

/// Takes a creation one step further: from the state so far and the adaptor's
/// answer to what was asked last, to the next state and what to do next.
/// There is no next step where the reply is not the one the creation waits
/// for.
///
/// An identifier that the adaptor reports as taken is never used: another is
/// drawn, for the same slug, until one is reported free. A failure of the
/// adaptor ends the creation at once and is the answer. The event is counted
/// after it is stored; if counting fails the event stays stored and the
/// failure is the answer.
pub fn create_event<E>(words: &WordLists, state: Creation, reply: Reply<E>) -> (next: Option<
    (Creation, Step<E>),
>)
    ensures
        next is Some <==> awaited(state.stage(), reply),
        next matches Some(next) ==> next.0.wf() && steps(*words, state, reply, next.0, next.1),
{
    proof {
        use_type_invariant(&state);
    }
    let ghost started_with = state.words();
    let ghost chosen = state.slug();
    let ghost probes = state.probes();
    match (state.stage, reply) {
        (Stage::Fresh { input }, Reply::Start) => {
            let now = current_time();
            let name = resolve_name(input.name, words);
            let slug = slug_for(name.as_str(), words);
            let id = candidate_id(slug.as_str());
            let asked = id.clone();
            let ghost chosen = slug@;
            let next = Creation {
                stage: Stage::Probing {
                    name,
                    slug,
                    id,
                    times: input.times,
                    timezone: input.timezone,
                    now,
                },
                words: Ghost(*words),
                slug: Ghost(chosen),
                probes: Ghost(Seq::empty()),
            };
            Some((next, Step::GetEvent { id: asked }))
        },
        (Stage::Probing { name, slug, id, times, timezone, now }, Reply::Event { found }) => {
            match found {
                Ok(Some(_)) => {
                    let ghost taken = Probe { id: id@, existed: true };
                    let id = candidate_id(slug.as_str());
                    let asked = id.clone();
                    proof {
                        lemma_grown(chosen, probes, taken);
                    }
                    let next = Creation {
                        stage: Stage::Probing { name, slug, id, times, timezone, now },
                        words: Ghost(started_with),
                        slug: Ghost(chosen),
                        probes: Ghost(probes.push(taken)),
                    };
                    Some((next, Step::GetEvent { id: asked }))
                },
                Ok(None) => {
                    let ghost free = Probe { id: id@, existed: false };
                    let event = Event { id, name, created_at: now, visited_at: now, times, timezone };
                    proof {
                        lemma_grown(chosen, probes, free);
                    }
                    let next = Creation {
                        stage: Stage::Storing,
                        words: Ghost(started_with),
                        slug: Ghost(chosen),
                        probes: Ghost(probes.push(free)),
                    };
                    Some((next, Step::CreateEvent { event }))
                },
                Err(error) => Some(finish(Err(ApiError::AdaptorError(error)))),
            }
        },
        (Stage::Storing, Reply::Created { stored }) => {
            match stored {
                Ok(event) => {
                    let next = Creation {
                        stage: Stage::Counting { event },
                        words: Ghost(started_with),
                        slug: Ghost(chosen),
                        probes: Ghost(probes),
                    };
                    Some((next, Step::IncrementStatEventCount))
                },
                Err(error) => Some(finish(Err(ApiError::AdaptorError(error)))),
            }
        },
        (Stage::Counting { event }, Reply::Counted { counted }) => {
            match counted {
                Ok(_) => Some(finish(Ok((CREATED, event.into_response())))),
                Err(error) => Some(finish(Err(ApiError::AdaptorError(error)))),
            }
        },
        _ => None,
    }
}

/// Whether the answers to a series of lookups can come from one store that
/// did not change meanwhile: no identifier was found both taken and free.
pub open spec fn consistent(probes: Seq<Probe>) -> bool {
    forall|i: int, j: int|
        0 <= i < probes.len() && 0 <= j < probes.len() && (#[trigger] probes[i]).id == (
        #[trigger] probes[j]).id ==> probes[i].existed == probes[j].existed
}

/// Whether the answers to a series of lookups are those of the store that
/// holds exactly the identifiers in `taken`.
pub open spec fn answered_by(probes: Seq<Probe>, taken: Set<Seq<char>>) -> bool {
    forall|i: int|
        0 <= i < probes.len() ==> (#[trigger] probes[i]).existed == taken.contains(probes[i].id)
}

/// The allocated identifier is the chosen slug, a hyphen and a number of six
/// digits. The slug is safe for a URL, and with word lists of ASCII
/// characters it is never degenerate, whatever name the client gave.
pub proof fn lemma_allocated_id(state: Creation)
    requires
        state.wf(),
        state.allocated(),
    ensures
        suffixed(state.slug(), state.allocated_id()),
        url_safe(state.slug()),
        state.words().ascii() ==> !degenerate(state.slug()),
{
}

/// The allocation ends with the first lookup that finds its identifier free:
/// every lookup before the last found its identifier taken, and the last one
/// found the allocated identifier free.
pub proof fn lemma_allocation_ends_at_first_free(state: Creation)
    requires
        state.wf(),
        state.allocated(),
    ensures
        state.probes().len() >= 1,
        state.probes().last() == (Probe { id: state.allocated_id(), existed: false }),
        forall|i: int| 0 <= i < state.probes().len() - 1 ==> (#[trigger] state.probes()[i]).existed,
{
}

/// Against a store that answers consistently, the allocated identifier is
/// none of those that an earlier lookup of the same allocation found taken.
pub proof fn lemma_allocated_id_was_never_taken(state: Creation)
    requires
        state.wf(),
        state.allocated(),
        consistent(state.probes()),
    ensures
        forall|i: int|
            0 <= i < state.probes().len() - 1 ==> (#[trigger] state.probes()[i]).id
                != state.allocated_id(),
{
    let probes = state.probes();
    let last = probes.len() - 1;
    assert forall|i: int| 0 <= i < last implies (#[trigger] probes[i]).id != state.allocated_id() by {
        assert(probes[i].existed);
        assert(!probes[last].existed);
    }
}

/// The allocated identifier is not in the store that answered the lookups.
pub proof fn lemma_allocated_id_is_free(state: Creation, taken: Set<Seq<char>>)
    requires
        state.wf(),
        state.allocated(),
        answered_by(state.probes(), taken),
    ensures
        !taken.contains(state.allocated_id()),
{
    let probes = state.probes();
    assert(!probes[probes.len() - 1].existed);
}

/// Two creations that hold the store one after the other get different
/// identifiers: the later one looks up a store that holds the identifier of
/// the earlier one, and so never settles on it.
pub proof fn lemma_serial_creations_differ(first: Creation, second: Creation, taken: Set<Seq<char>>)
    requires
        first.wf(),
        first.allocated(),
        second.wf(),
        second.allocated(),
        taken.contains(first.allocated_id()),
        answered_by(second.probes(), taken),
    ensures
        second.allocated_id() != first.allocated_id(),
{
    lemma_allocated_id_is_free(second, taken);
}

/// One more lookup after lookups that all found their identifier taken.
proof fn lemma_grown(slug: Seq<char>, probes: Seq<Probe>, probe: Probe)
    requires
        forall|i: int| 0 <= i < probes.len() ==> suffixed(slug, (#[trigger] probes[i]).id),
        forall|i: int| 0 <= i < probes.len() ==> (#[trigger] probes[i]).existed,
        suffixed(slug, probe.id),
    ensures
        forall|i: int|
            0 <= i < probes.push(probe).len() ==> suffixed(
                slug,
                (#[trigger] probes.push(probe)[i]).id,
            ),
        forall|i: int|
            0 <= i < probes.push(probe).len() - 1 ==> (#[trigger] probes.push(probe)[i]).existed,
        probes.push(probe).last() == probe,
{
    let grown = probes.push(probe);
    assert forall|i: int| 0 <= i < grown.len() implies suffixed(slug, (#[trigger] grown[i]).id) by {
        if i < probes.len() {
            assert(grown[i] == probes[i]);
        }
    }
    assert forall|i: int| 0 <= i < grown.len() - 1 implies (#[trigger] grown[i]).existed by {
        assert(grown[i] == probes[i]);
    }
}

/// Ends a creation with an answer.
fn finish<E>(result: Result<(u16, EventResponse), ApiError<E>>) -> (next: (Creation, Step<E>))
    ensures
        next.0.wf(),
        responds(result, next.0, next.1),
{
    let next = Creation {
        stage: Stage::Finished,
        words: Ghost(arbitrary()),
        slug: Ghost(Seq::empty()),
        probes: Ghost(Seq::empty()),
    };
    (next, Step::Respond { result })
}

} // verus!
