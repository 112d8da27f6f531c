use jellifit::model::{ApiError, Person, PersonResponse, Stats, StatsResponse};
use jellifit::routes::person::{get_people, get_person, update_person};
use jellifit::routes::stats::get_stats;
use jellifit::state::ApiState;

fn person(name: &str, availability: &[&str]) -> Person {
    Person {
        name: name.to_string(),
        availability: availability.iter().map(|a| a.to_string()).collect(),
    }
}

fn shown(name: &str, availability: &[&str]) -> PersonResponse {
    PersonResponse {
        name: name.to_string(),
        availability: availability.iter().map(|a| a.to_string()).collect(),
    }
}

#[test]
fn get_people_shows_everyone_in_order() {
    let people = vec![
        person("Ada", &["0900-12042021"]),
        person("ada", &[]),
        person("Grace", &["1000-12042021", "1100-12042021"]),
    ];
    assert_eq!(
        get_people::<String>(Ok(people)),
        Ok(vec![
            shown("Ada", &["0900-12042021"]),
            shown("ada", &[]),
            shown("Grace", &["1000-12042021", "1100-12042021"]),
        ])
    );
    assert_eq!(get_people::<String>(Ok(vec![])), Ok(vec![]));
}

#[test]
fn get_people_passes_the_adaptor_failure_on() {
    assert_eq!(
        get_people(Err("down".to_string())),
        Err(ApiError::AdaptorError("down".to_string()))
    );
}

#[test]
fn get_person_shows_the_person() {
    assert_eq!(
        get_person::<String>(Ok(Some(person("Ada", &["0900-12042021"])))),
        Ok(shown("Ada", &["0900-12042021"]))
    );
}

#[test]
fn get_person_on_an_unknown_name_is_not_found() {
    assert_eq!(get_person::<String>(Ok(None)), Err(ApiError::NotFound));
}

#[test]
fn get_person_passes_the_adaptor_failure_on() {
    assert_eq!(
        get_person(Err("down".to_string())),
        Err(ApiError::AdaptorError("down".to_string()))
    );
}

#[test]
fn update_person_shows_the_person_as_stored() {
    assert_eq!(
        update_person::<String>(Ok(person("Ada", &["1000-12042021"]))),
        Ok(shown("Ada", &["1000-12042021"]))
    );
    assert_eq!(
        update_person(Err("down".to_string())),
        Err(ApiError::AdaptorError("down".to_string()))
    );
}

#[test]
fn get_stats_shows_the_counter() {
    assert_eq!(
        get_stats::<String>(Ok(Stats { event_count: 12 })),
        Ok(StatsResponse { event_count: 12 })
    );
    assert_eq!(
        get_stats(Err("down".to_string())),
        Err(ApiError::AdaptorError("down".to_string()))
    );
}

#[test]
fn failures_map_to_statuses() {
    assert_eq!(ApiError::<String>::NotFound.status(), 404);
    assert_eq!(ApiError::<String>::NotAuthorized.status(), 401);
    assert_eq!(ApiError::AdaptorError("down".to_string()).status(), 500);
}

#[test]
fn the_shared_state_holds_the_adaptor() {
    let state = ApiState::new(vec![1, 2, 3]);
    assert_eq!(state.adaptor(), &vec![1, 2, 3]);
    assert_eq!(state.adaptor, vec![1, 2, 3]);
}
