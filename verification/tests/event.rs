use jellifit::model::{ApiError, Event, EventInput, EventResponse};
use jellifit::names::WordLists;
use jellifit::routes::event::{create_event, get_event, Creation, Reply, Step, CREATED};
use jellifit::slug::encode_name;
use jellifit::time::Timestamp;

type Answer = Result<(u16, EventResponse), ApiError<String>>;

/// What a run of one creation asked of the store.
struct Run {
    lookups: Vec<String>,
    stored: Vec<Event>,
    counted: u32,
    answer: Answer,
}

fn lists() -> WordLists {
    WordLists::new(
        vec!["Happy".to_string(), "Sleepy".to_string()],
        vec!["Moon".to_string(), "Box".to_string()],
    )
    .expect("both lists hold a word")
}

fn input(name: Option<&str>) -> EventInput {
    EventInput {
        name: name.map(|n| n.to_string()),
        times: vec!["0900-12042021".to_string(), "1000-12042021".to_string()],
        timezone: "Australia/Melbourne".to_string(),
    }
}

fn some_event(id: &str) -> Event {
    Event {
        id: id.to_string(),
        name: "Earlier".to_string(),
        created_at: Timestamp { seconds: 1, nanos: 0 },
        visited_at: Timestamp { seconds: 2, nanos: 0 },
        times: vec![],
        timezone: "UTC".to_string(),
    }
}

/// Runs one creation against a store that answers each lookup through `taken`,
/// each call through `fails` (by the number of calls made before it), and
/// stores what it is given.
fn run(
    input: EventInput,
    mut taken: impl FnMut(usize, &str) -> bool,
    fails: impl Fn(usize) -> bool,
) -> Run {
    let words = lists();
    let mut run = Run { lookups: vec![], stored: vec![], counted: 0, answer: Err(ApiError::NotFound) };
    let mut calls = 0;
    let mut state = Creation::new(input);
    let mut reply = Reply::Start;
    loop {
        assert!(state.expects(&reply));
        let (next, step) = create_event(&words, state, reply).expect("the reply is in turn");
        state = next;
        let failed = fails(calls);
        reply = match step {
            Step::GetEvent { id } => {
                let found = if failed {
                    Err("lookup failed".to_string())
                } else if taken(run.lookups.len(), &id) {
                    Ok(Some(some_event(&id)))
                } else {
                    Ok(None)
                };
                run.lookups.push(id);
                Reply::Event { found }
            }
            Step::CreateEvent { event } => {
                let stored = if failed {
                    Err("write failed".to_string())
                } else {
                    run.stored.push(event.clone());
                    Ok(event)
                };
                Reply::Created { stored }
            }
            Step::IncrementStatEventCount => {
                let counted = if failed {
                    Err("count failed".to_string())
                } else {
                    run.counted += 1;
                    Ok(())
                };
                Reply::Counted { counted }
            }
            Step::Respond { result } => {
                assert!(state.is_finished());
                run.answer = result;
                return run;
            }
        };
        calls += 1;
    }
}

fn step(
    words: &WordLists,
    state: Creation,
    reply: Reply<String>,
) -> (Creation, Step<String>) {
    create_event(words, state, reply).expect("the reply is in turn")
}

fn split(id: &str) -> (String, u32) {
    let at = id.rfind('-').expect("an identifier holds a hyphen");
    let digits = &id[at + 1..];
    assert_eq!(digits.len(), 6, "{id}");
    assert!(digits.chars().all(|c| c.is_ascii_digit()), "{id}");
    (id[..at].to_string(), digits.parse().unwrap())
}

fn is_generated(name: &str) -> bool {
    ["Happy", "Sleepy"]
        .iter()
        .any(|a| ["Moon", "Box"].iter().any(|c| name == format!("{} {} Jelly", a, c)))
}

#[test]
fn get_event_shows_the_event() {
    let event = Event {
        id: "team-lunch-123456".to_string(),
        name: "Team Lunch".to_string(),
        created_at: Timestamp { seconds: 1_700_000_000, nanos: 42 },
        visited_at: Timestamp { seconds: 1_700_000_500, nanos: 0 },
        times: vec!["0900-12042021".to_string()],
        timezone: "Europe/Paris".to_string(),
    };
    let shown = get_event::<String>(Ok(Some(event)));
    assert_eq!(
        shown,
        Ok(EventResponse {
            id: "team-lunch-123456".to_string(),
            name: "Team Lunch".to_string(),
            times: vec!["0900-12042021".to_string()],
            timezone: "Europe/Paris".to_string(),
            created_at: 1_700_000_000,
        })
    );
}

#[test]
fn get_event_on_an_unknown_id_is_not_found() {
    assert_eq!(get_event::<String>(Ok(None)), Err(ApiError::NotFound));
}

#[test]
fn get_event_passes_the_adaptor_failure_on() {
    assert_eq!(
        get_event(Err("connection lost".to_string())),
        Err(ApiError::AdaptorError("connection lost".to_string()))
    );
}

#[test]
fn create_event_stores_and_counts_once() {
    let run = run(input(Some("Team Lunch")), |_, _| false, |_| false);
    assert_eq!(run.lookups.len(), 1);
    assert_eq!(run.stored.len(), 1);
    assert_eq!(run.counted, 1);
    let event = &run.stored[0];
    assert_eq!(event.id, run.lookups[0]);
    assert_eq!(event.name, "Team Lunch");
    assert_eq!(event.times, input(None).times);
    assert_eq!(event.timezone, "Australia/Melbourne");
    assert_eq!(event.created_at, event.visited_at);
    assert!(event.created_at.seconds > 1_600_000_000);
    let (slug, number) = split(&event.id);
    assert_eq!(slug, "team-lunch");
    assert!((100_000..=999_999).contains(&number));
    let (status, shown) = run.answer.expect("the creation succeeds");
    assert_eq!(status, CREATED);
    assert_eq!(status, 201);
    assert_eq!(shown.id, event.id);
    assert_eq!(shown.name, "Team Lunch");
    assert_eq!(shown.times, event.times);
    assert_eq!(shown.timezone, event.timezone);
    assert_eq!(shown.created_at, event.created_at.seconds);
}

#[test]
fn create_event_trims_the_name() {
    let run = run(input(Some("  Team Lunch \n")), |_, _| false, |_| false);
    assert_eq!(run.stored[0].name, "Team Lunch");
    assert_eq!(split(&run.stored[0].id).0, "team-lunch");
}

#[test]
fn create_event_with_an_empty_name_generates_one() {
    let run = run(input(Some("")), |_, _| false, |_| false);
    let event = &run.stored[0];
    assert!(is_generated(&event.name), "{}", event.name);
    let words: Vec<&str> = event.name.split(' ').collect();
    assert_eq!(words.len(), 3);
    assert_eq!(words[2], "Jelly");
    let (slug, _) = split(&event.id);
    assert_eq!(slug, encode_name(event.name.clone()));
    assert!(!slug.is_empty());
}

#[test]
fn create_event_without_a_name_generates_one() {
    let run = run(input(None), |_, _| false, |_| false);
    let event = &run.stored[0];
    assert!(is_generated(&event.name), "{}", event.name);
    assert_eq!(split(&event.id).0, encode_name(event.name.clone()));
}

#[test]
fn create_event_with_a_blank_name_generates_one() {
    let run = run(input(Some(" \t ")), |_, _| false, |_| false);
    let event = &run.stored[0];
    assert!(is_generated(&event.name), "{}", event.name);
    assert_eq!(split(&event.id).0, encode_name(event.name.clone()));
}

#[test]
fn create_event_keeps_a_name_without_a_slug() {
    let run = run(input(Some("!!!")), |_, _| false, |_| false);
    let event = &run.stored[0];
    assert_eq!(event.name, "!!!");
    let (slug, _) = split(&event.id);
    assert!(slug.ends_with("-jelly"), "{slug}");
    assert!(slug.starts_with("happy-") || slug.starts_with("sleepy-"), "{slug}");
}

#[test]
fn create_event_probes_until_an_id_is_free() {
    let run = run(input(Some("Team Lunch")), |n, _| n < 2, |_| false);
    assert_eq!(run.lookups.len(), 3);
    assert_eq!(run.stored.len(), 1);
    assert_eq!(run.stored[0].id, run.lookups[2]);
    assert_eq!(run.counted, 1);
    for id in &run.lookups {
        assert_eq!(split(id).0, "team-lunch");
    }
    let (_, shown) = run.answer.expect("the creation succeeds");
    assert_eq!(shown.id, run.lookups[2]);
}

#[test]
fn create_event_keeps_the_slug_when_it_retries() {
    let run = run(input(Some("???")), |n, _| n < 5, |_| false);
    assert_eq!(run.lookups.len(), 6);
    let (slug, _) = split(&run.lookups[0]);
    for id in &run.lookups {
        assert_eq!(split(id).0, slug);
    }
    assert_eq!(run.stored[0].id, run.lookups[5]);
}

#[test]
fn create_event_never_uses_an_id_the_store_holds() {
    let mut held: Vec<String> = Vec::new();
    for _ in 0..50 {
        let seen = held.clone();
        let run = run(input(Some("x")), move |_, id| seen.iter().any(|h| h == id), |_| false);
        let id = run.stored[0].id.clone();
        assert!(!held.contains(&id));
        for earlier in &run.lookups[..run.lookups.len() - 1] {
            assert!(held.contains(earlier));
            assert_ne!(earlier, &id);
        }
        held.push(id);
    }
}

#[test]
fn create_event_stops_when_the_lookup_fails() {
    let run = run(input(Some("Team Lunch")), |_, _| false, |call| call == 0);
    assert_eq!(run.lookups.len(), 1);
    assert!(run.stored.is_empty());
    assert_eq!(run.counted, 0);
    assert_eq!(run.answer, Err(ApiError::AdaptorError("lookup failed".to_string())));
}

#[test]
fn create_event_stops_when_a_later_lookup_fails() {
    let run = run(input(Some("Team Lunch")), |_, _| true, |call| call == 3);
    assert_eq!(run.lookups.len(), 4);
    assert!(run.stored.is_empty());
    assert_eq!(run.answer, Err(ApiError::AdaptorError("lookup failed".to_string())));
}

#[test]
fn create_event_stops_when_the_write_fails() {
    let run = run(input(Some("Team Lunch")), |_, _| false, |call| call == 1);
    assert_eq!(run.lookups.len(), 1);
    assert!(run.stored.is_empty());
    assert_eq!(run.counted, 0);
    assert_eq!(run.answer, Err(ApiError::AdaptorError("write failed".to_string())));
}

#[test]
fn create_event_fails_when_counting_fails_but_the_event_stays() {
    let run = run(input(Some("Team Lunch")), |_, _| false, |call| call == 2);
    assert_eq!(run.stored.len(), 1);
    assert_eq!(run.counted, 0);
    assert_eq!(run.answer, Err(ApiError::AdaptorError("count failed".to_string())));
}

#[test]
fn create_event_answers_with_what_the_store_returned() {
    let words = lists();
    let state = Creation::new(input(Some("Team Lunch")));
    let (state, _) = step(&words, state, Reply::Start);
    let (state, _) = step(&words, state, Reply::Event { found: Ok(None) });
    let stored = some_event("as-stored-000001");
    let (state, next) = step(&words, state, Reply::Created { stored: Ok(stored) });
    assert!(matches!(next, Step::IncrementStatEventCount));
    let (state, step) = step(&words, state, Reply::Counted { counted: Ok(()) });
    assert!(state.is_finished());
    match step {
        Step::Respond { result: Ok((status, shown)) } => {
            assert_eq!(status, 201);
            assert_eq!(shown.id, "as-stored-000001");
            assert_eq!(shown.name, "Earlier");
            assert_eq!(shown.created_at, 1);
        }
        other => panic!("unexpected step {:?}", other),
    }
}

#[test]
fn a_creation_expects_one_kind_of_reply_at_a_time() {
    let words = lists();
    let state = Creation::new(input(Some("Team Lunch")));
    assert!(!state.is_finished());
    assert!(state.expects(&Reply::<String>::Start));
    assert!(!state.expects(&Reply::<String>::Event { found: Ok(None) }));
    assert!(!state.expects(&Reply::<String>::Counted { counted: Ok(()) }));

    let (state, _) = step(&words, state, Reply::Start);
    assert!(!state.expects(&Reply::<String>::Start));
    assert!(state.expects(&Reply::<String>::Event { found: Ok(None) }));
    assert!(!state.expects(&Reply::<String>::Created { stored: Ok(some_event("x")) }));

    let (state, _) = step(&words, state, Reply::Event { found: Ok(None) });
    assert!(state.expects(&Reply::<String>::Created { stored: Ok(some_event("x")) }));
    assert!(!state.expects(&Reply::<String>::Event { found: Ok(None) }));

    let (state, _) = step(&words, state, Reply::Created { stored: Ok(some_event("x")) });
    assert!(state.expects(&Reply::<String>::Counted { counted: Ok(()) }));
    assert!(!state.expects(&Reply::<String>::Start));

    let (state, _) = step(&words, state, Reply::Counted { counted: Ok(()) });
    assert!(state.is_finished());
    assert!(!state.expects(&Reply::<String>::Start));
    assert!(!state.expects(&Reply::<String>::Counted { counted: Ok(()) }));
}

#[test]
fn creations_that_follow_each_other_get_different_ids() {
    let mut held: Vec<String> = Vec::new();
    let first = {
        let seen = held.clone();
        run(input(Some("Standup")), move |_, id| seen.iter().any(|h| h == id), |_| false)
    };
    held.push(first.stored[0].id.clone());
    let second = {
        let seen = held.clone();
        run(input(Some("Standup")), move |_, id| seen.iter().any(|h| h == id), |_| false)
    };
    assert_eq!(split(&first.stored[0].id).0, "standup");
    assert_eq!(split(&second.stored[0].id).0, "standup");
    assert_ne!(first.stored[0].id, second.stored[0].id);
}

#[test]
fn a_reply_out_of_turn_has_no_next_step() {
    let words = lists();
    let fresh = || Creation::new(input(Some("Team Lunch")));
    assert!(create_event::<String>(&words, fresh(), Reply::Event { found: Ok(None) }).is_none());
    assert!(create_event::<String>(&words, fresh(), Reply::Counted { counted: Ok(()) }).is_none());
    assert!(create_event::<String>(
        &words,
        fresh(),
        Reply::Created { stored: Ok(some_event("x")) }
    )
    .is_none());

    let probing = || step(&words, fresh(), Reply::Start).0;
    assert!(create_event::<String>(&words, probing(), Reply::Start).is_none());
    assert!(create_event::<String>(&words, probing(), Reply::Counted { counted: Ok(()) }).is_none());

    let storing = || step(&words, probing(), Reply::Event { found: Ok(None) }).0;
    assert!(create_event::<String>(&words, storing(), Reply::Start).is_none());
    assert!(create_event::<String>(&words, storing(), Reply::Event { found: Ok(None) }).is_none());

    let finished = || step(&words, probing(), Reply::Event { found: Err("down".to_string()) }).0;
    assert!(finished().is_finished());
    assert!(create_event::<String>(&words, finished(), Reply::Start).is_none());
    assert!(create_event::<String>(&words, finished(), Reply::Event { found: Ok(None) }).is_none());
}
