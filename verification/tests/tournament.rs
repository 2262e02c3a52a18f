use bson::{Bson, Document};
use std::collections::HashMap;
use tournament_management::document::DecodeReason;
use tournament_management::errors::{response_status, ServiceError};
use tournament_management::models::{NewTournament, Tournament};
use tournament_management::store::{StoreReply, StoreRequest};
use tournament_management::tournament::{
    get_by_id, get_tournament, new_tournament, new_tournament_from_form, resume_tournament,
    TournamentPending, TournamentStep,
};

/// A store in memory that answers as a working document store does.
struct MemoryStore {
    collections: HashMap<String, Vec<Document>>,
    counters: HashMap<(String, String), i32>,
}

impl MemoryStore {
    fn new() -> MemoryStore {
        MemoryStore { collections: HashMap::new(), counters: HashMap::new() }
    }

    fn perform(&mut self, request: StoreRequest) -> StoreReply {
        match request {
            StoreRequest::FindOne { collection, filter } => {
                let documents = self.collections.entry(collection).or_default();
                let found = documents
                    .iter()
                    .find(|document| filter.iter().all(|(key, value)| document.get(key) == Some(value)));
                StoreReply::Found(found.cloned())
            }
            StoreRequest::InsertOne { collection, document } => {
                self.collections.entry(collection).or_default().push(document);
                StoreReply::Inserted
            }
            StoreRequest::FindAndIncrement { collection, key } => {
                let counter = self.counters.entry((collection, key)).or_insert(0);
                *counter += 1;
                StoreReply::Incremented(*counter)
            }
        }
    }
}

fn advance(store: &mut MemoryStore, step: TournamentStep) -> TournamentStep {
    match step {
        TournamentStep::Done(outcome) => TournamentStep::Done(outcome),
        TournamentStep::Ask(request, pending) => {
            let reply = store.perform(request);
            resume_tournament(pending, reply)
        }
    }
}

fn run(store: &mut MemoryStore, first: TournamentStep) -> Result<Tournament, ServiceError> {
    let mut step = first;
    loop {
        match step {
            TournamentStep::Done(outcome) => return outcome,
            asking => step = advance(store, asking),
        }
    }
}

fn submission(name: &str, teams: Vec<u32>, stage: &str) -> NewTournament {
    NewTournament { name: name.to_string(), teams, current_stage: stage.to_string() }
}

fn tournament(id: u32, name: &str, teams: Vec<u32>, stage: &str) -> Tournament {
    Tournament { id, name: name.to_string(), teams, current_stage: stage.to_string() }
}

fn id_filter(id: i32) -> Document {
    let mut filter = Document::new();
    filter.insert("id", Bson::Int32(id));
    filter
}

#[test]
fn created_tournaments_are_numbered_from_one_upwards() {
    let mut store = MemoryStore::new();
    let first = run(&mut store, new_tournament(submission("Regionals", vec![118], "quals")));
    assert_eq!(first, Ok(tournament(1, "Regionals", vec![118], "quals")));
    assert_eq!(response_status(&first), 200);

    let second = run(&mut store, new_tournament(submission("Regionals", vec![118], "quals")));
    assert_eq!(second, Ok(tournament(2, "Regionals", vec![118], "quals")));

    let third = run(&mut store, new_tournament(submission("Nationals", vec![], "playoffs")));
    assert_eq!(third, Ok(tournament(3, "Nationals", vec![], "playoffs")));
}

#[test]
fn creation_mints_the_identifier_first_and_inserts_second() {
    let first = new_tournament(submission("Regionals", vec![118], "quals"));
    let expected = TournamentStep::Ask(
        StoreRequest::FindAndIncrement {
            collection: "counter".to_string(),
            key: "tournaments".to_string(),
        },
        TournamentPending::Sequence(submission("Regionals", vec![118], "quals")),
    );
    assert_eq!(first, expected);

    let second = resume_tournament(
        TournamentPending::Sequence(submission("Regionals", vec![118], "quals")),
        StoreReply::Incremented(41),
    );
    let mut document = Document::new();
    document.insert("id", Bson::Int32(41));
    document.insert("name", "Regionals");
    document.insert("teams", Bson::Array(vec![Bson::Int32(118)]));
    document.insert("current_stage", "quals");
    let expected = TournamentStep::Ask(
        StoreRequest::InsertOne { collection: "tournaments".to_string(), document },
        TournamentPending::Insert(tournament(41, "Regionals", vec![118], "quals")),
    );
    assert_eq!(second, expected);

    let third = resume_tournament(
        TournamentPending::Insert(tournament(41, "Regionals", vec![118], "quals")),
        StoreReply::Inserted,
    );
    assert_eq!(third, TournamentStep::Done(Ok(tournament(41, "Regionals", vec![118], "quals"))));
}

#[test]
fn a_created_tournament_is_found_by_its_identifier() {
    let mut store = MemoryStore::new();
    let created = run(&mut store, new_tournament(submission("Regionals", vec![118, 7], "quals")));
    assert_eq!(created, Ok(tournament(1, "Regionals", vec![118, 7], "quals")));
    assert_eq!(run(&mut store, get_by_id(1)), created);
    assert_eq!(run(&mut store, get_tournament("1")), created);
    assert_eq!(run(&mut store, get_by_id(2)), Err(ServiceError::NotFound));
    assert_eq!(response_status(&run(&mut store, get_by_id(2))), 404);
}

#[test]
fn a_tournament_may_name_teams_that_do_not_exist() {
    let mut store = MemoryStore::new();
    let created = run(&mut store, new_tournament(submission("Open", vec![9, 9, 12345], "")));
    assert_eq!(created, Ok(tournament(1, "Open", vec![9, 9, 12345], "")));
    assert!(store.collections.get("teams").is_none());
}

#[test]
fn creations_that_interleave_get_different_identifiers() {
    let count: usize = 6;
    // Every creation mints first; the inserts follow in another order.
    let mut store = MemoryStore::new();
    let mut steps: Vec<TournamentStep> = Vec::new();
    for i in 0..count {
        steps.push(new_tournament(submission(&format!("T{}", i), vec![i as u32], "quals")));
    }
    let schedule = [3, 0, 5, 1, 4, 2, 2, 4, 1, 5, 0, 3];
    for who in schedule {
        let step = steps.remove(who);
        steps.insert(who, advance(&mut store, step));
    }
    let mut ids: Vec<u32> = Vec::new();
    for (i, step) in steps.into_iter().enumerate() {
        match step {
            TournamentStep::Done(Ok(created)) => {
                assert_eq!(created.name, format!("T{}", i));
                assert_eq!(created.teams, vec![i as u32]);
                ids.push(created.id);
            }
            other => panic!("creation {} is not over: {:?}", i, other),
        }
    }
    assert_eq!(ids, vec![2, 4, 6, 1, 5, 3]);
    ids.sort();
    ids.dedup();
    assert_eq!(ids.len(), count);
    assert_eq!(store.collections.get("tournaments").map(|stored| stored.len()), Some(count));

    // One after the other, and pairwise alternating, it is no different.
    let mut store = MemoryStore::new();
    let mut steps: Vec<TournamentStep> = Vec::new();
    for i in 0..count {
        steps.push(new_tournament(submission(&format!("T{}", i), vec![], "quals")));
    }
    for who in [0, 0, 1, 2, 1, 2, 5, 4, 3, 3, 4, 5] {
        let step = steps.remove(who);
        steps.insert(who, advance(&mut store, step));
    }
    let mut ids: Vec<u32> = Vec::new();
    for step in steps {
        match step {
            TournamentStep::Done(Ok(created)) => ids.push(created.id),
            other => panic!("a creation is not over: {:?}", other),
        }
    }
    assert_eq!(ids, vec![1, 2, 3, 6, 5, 4]);
}

#[test]
fn fetching_asks_for_one_tournament_by_identifier() {
    let expected = TournamentStep::Ask(
        StoreRequest::FindOne { collection: "tournaments".to_string(), filter: id_filter(7) },
        TournamentPending::Fetch,
    );
    assert_eq!(get_by_id(7), expected);
    assert_eq!(get_tournament("7"), expected);
    assert_eq!(get_tournament("007"), expected);
}

#[test]
fn a_path_that_is_no_identifier_is_refused_before_the_store_is_asked() {
    let refused = TournamentStep::Done(Err(ServiceError::Validation {
        field: "id".to_string(),
        reason: "not an integer".to_string(),
    }));
    for path in ["abc", "", "-1", "1.5", "4294967296"] {
        assert_eq!(get_tournament(path), refused);
    }
    assert_eq!(
        response_status::<Tournament>(&Err(ServiceError::Validation {
            field: "id".to_string(),
            reason: "not an integer".to_string(),
        })),
        400
    );
}

#[test]
fn fetching_an_absent_identifier_is_not_found() {
    let mut store = MemoryStore::new();
    assert_eq!(run(&mut store, get_by_id(1)), Err(ServiceError::NotFound));
    assert_eq!(run(&mut store, get_by_id(0)), Err(ServiceError::NotFound));
}

#[test]
fn a_stored_tournament_without_teams_is_a_storage_decode_error() {
    let mut store = MemoryStore::new();
    let mut corrupt = Document::new();
    corrupt.insert("id", Bson::Int32(4));
    corrupt.insert("name", "Regionals");
    corrupt.insert("current_stage", "quals");
    store.collections.insert("tournaments".to_string(), vec![corrupt]);
    let outcome = run(&mut store, get_by_id(4));
    assert_eq!(
        outcome,
        Err(ServiceError::StorageDecode { field: "teams".to_string(), reason: DecodeReason::Missing })
    );
    assert_eq!(response_status(&outcome), 500);
}

#[test]
fn a_failed_mint_or_insert_ends_the_creation_as_a_store_error() {
    let failed = || StoreReply::Failed("timed out".to_string());
    let error = || TournamentStep::Done(Err(ServiceError::Store { message: "timed out".to_string() }));
    assert_eq!(
        resume_tournament(TournamentPending::Sequence(submission("R", vec![], "q")), failed()),
        error()
    );
    assert_eq!(
        resume_tournament(TournamentPending::Insert(tournament(1, "R", vec![], "q")), failed()),
        error()
    );
    assert_eq!(resume_tournament(TournamentPending::Fetch, failed()), error());
}

#[test]
fn a_reply_to_another_request_ends_the_operation_as_a_store_error() {
    let unexpected = || TournamentStep::Done(Err(ServiceError::unexpected_reply()));
    let waiting = || TournamentPending::Sequence(submission("R", vec![1], "q"));
    assert_eq!(resume_tournament(waiting(), StoreReply::Inserted), unexpected());
    assert_eq!(resume_tournament(waiting(), StoreReply::Found(None)), unexpected());
    let inserting = || TournamentPending::Insert(tournament(1, "R", vec![1], "q"));
    assert_eq!(resume_tournament(inserting(), StoreReply::Incremented(2)), unexpected());
    assert_eq!(resume_tournament(inserting(), StoreReply::Found(None)), unexpected());
    assert_eq!(resume_tournament(TournamentPending::Fetch, StoreReply::Inserted), unexpected());
    assert_eq!(resume_tournament(TournamentPending::Fetch, StoreReply::Incremented(1)), unexpected());
}

#[test]
fn a_negative_counter_value_is_widened() {
    let step = resume_tournament(
        TournamentPending::Sequence(submission("R", vec![], "q")),
        StoreReply::Incremented(-1),
    );
    match step {
        TournamentStep::Ask(_, TournamentPending::Insert(created)) => {
            assert_eq!(created.id, 4294967295)
        }
        other => panic!("expected an insert, got {:?}", other),
    }
}

#[test]
fn a_tournament_with_team_numbers_above_the_signed_range_is_found_again() {
    let mut store = MemoryStore::new();
    let teams = vec![4000000000, 118, 2147483648, u32::MAX];
    let created = run(&mut store, new_tournament(submission("Wide", teams.clone(), "quals")));
    assert_eq!(created, Ok(tournament(1, "Wide", teams.clone(), "quals")));
    assert_eq!(run(&mut store, get_by_id(1)), Ok(tournament(1, "Wide", teams, "quals")));
}

#[test]
fn a_tournament_under_an_identifier_above_the_signed_range_is_found_again() {
    let mut store = MemoryStore::new();
    let inserting = resume_tournament(
        TournamentPending::Sequence(submission("Late", vec![1], "quals")),
        StoreReply::Incremented(-5),
    );
    let created = run(&mut store, inserting);
    assert_eq!(created, Ok(tournament(4294967291, "Late", vec![1], "quals")));
    assert_eq!(run(&mut store, get_by_id(4294967291)), created);
    assert_eq!(run(&mut store, get_tournament("4294967291")), created);
}

#[test]
fn a_form_with_every_field_starts_a_creation() {
    let step = new_tournament_from_form(
        Some("Regionals".to_string()),
        Some(vec![118]),
        Some("quals".to_string()),
    );
    assert_eq!(step, new_tournament(submission("Regionals", vec![118], "quals")));
    let mut store = MemoryStore::new();
    assert_eq!(run(&mut store, step), Ok(tournament(1, "Regionals", vec![118], "quals")));
}

#[test]
fn a_form_without_a_field_is_refused_before_the_store_is_asked() {
    let refused = |field: &str| {
        TournamentStep::Done(Err(ServiceError::Validation {
            field: field.to_string(),
            reason: "missing".to_string(),
        }))
    };
    let text = |value: &str| Some(value.to_string());
    assert_eq!(new_tournament_from_form(None, Some(vec![]), text("quals")), refused("name"));
    assert_eq!(new_tournament_from_form(text("R"), None, text("quals")), refused("teams"));
    assert_eq!(
        new_tournament_from_form(text("R"), Some(vec![1]), None),
        refused("current_stage")
    );
    let mut store = MemoryStore::new();
    let outcome = run(&mut store, new_tournament_from_form(None, None, None));
    assert_eq!(response_status(&outcome), 400);
    assert!(store.counters.is_empty());
    assert!(store.collections.is_empty());
}
