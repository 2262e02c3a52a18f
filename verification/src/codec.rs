//! Codecs between wire input, canonical records and stored documents.
//!
//! Stored layout: a team is `{number, name, affiliation}`, a tournament is
//! `{id, name, teams, current_stage}`. The store's integer has 32 bits and a
//! sign, a record's number has 32 bits and none: a number is stored as the
//! signed integer with the same bits ([`narrow`]) and read back from it
//! ([`widen`]), so that every number survives storage. Decoding insists on
//! every field with its type, with one documented leniency: an element of
//! `teams` that is not a 32-bit integer is skipped.

use crate::decimal::{parse_u32, parse_u32_spec};
use crate::document::{
    document_fields, empty_document, field_as_i32, field_as_i32_items, field_as_text, no_fields,
    put_i32, put_i32_list, put_text, read_i32, read_i32_items, read_text, value_as_i32,
    DecodeReason, FieldValue,
};
use crate::errors::{ServiceError, ServiceErrorView};
use crate::models::{NewTeam, NewTeamView, NewTournament, NewTournamentView, Team, TeamView,
    Tournament, TournamentView};
use bson::Document;
use vstd::prelude::*;
use vstd::string::StringExecFns;

verus! {

/// Name of the field that holds a team's number.
pub open spec fn number_key() -> Seq<char> {
    "number"@
}

/// Name of the field that holds a record's name.
pub open spec fn name_key() -> Seq<char> {
    "name"@
}

/// Name of the field that holds a team's affiliation.
pub open spec fn affiliation_key() -> Seq<char> {
    "affiliation"@
}

/// Name of the field that holds a tournament's identifier.
pub open spec fn id_key() -> Seq<char> {
    "id"@
}

/// Name of the field that holds a tournament's team numbers.
pub open spec fn teams_key() -> Seq<char> {
    "teams"@
}

/// Name of the field that holds a tournament's current stage.
pub open spec fn current_stage_key() -> Seq<char> {
    "current_stage"@
}

/// What is said of a number that does not parse.
pub open spec fn not_an_integer() -> Seq<char> {
    "not an integer"@
}

/// The field names of a team are pairwise different, and so are those of a
/// tournament.
pub proof fn lemma_keys_differ()
    ensures
        number_key() != name_key(),
        number_key() != affiliation_key(),
        name_key() != affiliation_key(),
        id_key() != name_key(),
        id_key() != teams_key(),
        id_key() != current_stage_key(),
        name_key() != teams_key(),
        name_key() != current_stage_key(),
        teams_key() != current_stage_key(),
{
    reveal_strlit("number");
    reveal_strlit("name");
    reveal_strlit("affiliation");
    reveal_strlit("id");
    reveal_strlit("teams");
    reveal_strlit("current_stage");
    assert("number"@.len() == 6 && "name"@.len() == 4 && "affiliation"@.len() == 11);
    assert("id"@.len() == 2 && "teams"@.len() == 5 && "current_stage"@.len() == 13);
}

/// A stored 32-bit integer as the unsigned number it stands for: itself where
/// it is not negative, and 2^32 more where it is.
pub open spec fn widen_spec(stored: i32) -> u32 {
    if stored >= 0 {
        stored as u32
    } else {
        (stored + 0x1_0000_0000) as u32
    }
}

/// Widens a stored 32-bit integer to the canonical unsigned type.
pub fn widen(stored: i32) -> (number: u32)
    ensures
        number == widen_spec(stored),
{
    if stored >= 0 {
        stored as u32
    } else {
        let shifted: i64 = stored as i64 + 0x1_0000_0000i64;
        shifted as u32
    }
}

/// An unsigned number as the 32-bit integer that is stored for it: itself
/// up to `i32::MAX`, and 2^32 less above.
pub open spec fn narrow_spec(number: u32) -> i32 {
    if number <= i32::MAX {
        number as i32
    } else {
        (number - 0x1_0000_0000) as i32
    }
}

/// Narrows a number to the 32-bit integer that is stored for it.
pub fn narrow(number: u32) -> (stored: i32)
    ensures
        stored == narrow_spec(number),
{
    if number <= 0x7fff_ffff {
        number as i32
    } else {
        let shifted: i64 = number as i64 - 0x1_0000_0000i64;
        shifted as i32
    }
}

/// Narrowing and widening undo each other: every number is read back from
/// what is stored for it, and no two numbers are stored alike.
pub proof fn law_widen_undoes_narrow(number: u32, stored: i32)
    ensures
        widen_spec(narrow_spec(number)) == number,
        narrow_spec(widen_spec(stored)) == stored,
{
}

/// What is stored for a number.
pub open spec fn stored_number(number: u32) -> FieldValue {
    FieldValue::Int32(narrow_spec(number))
}

/// What is stored for each of a list of numbers.
pub open spec fn stored_numbers(numbers: Seq<u32>) -> FieldValue {
    FieldValue::List(numbers.map_values(|number: u32| stored_number(number)))
}

/// Narrows each of a list of numbers, in order.
pub fn narrow_all(numbers: &Vec<u32>) -> (stored: Vec<i32>)
    ensures
        stored@ == numbers@.map_values(|number: u32| narrow_spec(number)),
{
    let mut stored: Vec<i32> = Vec::new();
    let mut i: usize = 0;
    while i < numbers.len()
        invariant
            i <= numbers.len(),
            stored@ == numbers@.take(i as int).map_values(|number: u32| narrow_spec(number)),
        decreases numbers.len() - i,
    {
        stored.push(narrow(numbers[i]));
        proof {
            assert(numbers@.take(i + 1).map_values(|number: u32| narrow_spec(number))
                =~= numbers@.take(i as int).map_values(|number: u32| narrow_spec(number)).push(
                narrow_spec(numbers@[i as int]),
            ));
        }
        i = i + 1;
    }
    proof {
        assert(numbers@.take(i as int) =~= numbers@);
    }
    stored
}

/// The error for a stored field that could not be read.
pub open spec fn storage_error(field: Seq<char>, reason: DecodeReason) -> ServiceErrorView {
    ServiceErrorView::StorageDecode { field, reason }
}

/// The error for a number that does not parse.
pub open spec fn number_error() -> ServiceErrorView {
    ServiceErrorView::Validation { field: number_key(), reason: not_an_integer() }
}

/// Mathematical value of the outcome of an operation on teams.
pub open spec fn team_outcome(outcome: Result<Team, ServiceError>) -> Result<
    TeamView,
    ServiceErrorView,
> {
    match outcome {
        Ok(team) => Ok(team@),
        Err(error) => Err(error@),
    }
}

/// Mathematical value of the outcome of an operation on tournaments.
pub open spec fn tournament_outcome(outcome: Result<Tournament, ServiceError>) -> Result<
    TournamentView,
    ServiceErrorView,
> {
    match outcome {
        Ok(tournament) => Ok(tournament@),
        Err(error) => Err(error@),
    }
}

/// The team that a submitted form denotes: its number parsed, name and
/// affiliation as they came.
pub open spec fn decode_team_input_spec(input: NewTeamView) -> Result<TeamView, ServiceErrorView> {
    match parse_u32_spec(input.number) {
        Some(number) => Ok(
            TeamView { number, name: input.name, affiliation: input.affiliation },
        ),
        None => Err(number_error()),
    }
}

/// Decodes a submitted team. Fails exactly where the number is not an
/// optional `+` and decimal digits within `u32`.
pub fn decode_team_input(input: &NewTeam) -> (outcome: Result<Team, ServiceError>)
    ensures
        team_outcome(outcome) == decode_team_input_spec(input@),
{
    match parse_u32(input.number.as_str()) {
        Some(number) => Ok(
            Team { number, name: input.name.clone(), affiliation: input.affiliation.clone() },
        ),
        None => Err(
            ServiceError::Validation {
                field: String::from_str("number"),
                reason: String::from_str("not an integer"),
            },
        ),
    }
}

/// The fields of the document that stores `team`.
pub open spec fn encode_team_spec(team: TeamView) -> Map<Seq<char>, FieldValue> {
    no_fields().insert(number_key(), stored_number(team.number)).insert(
        name_key(),
        FieldValue::Text(team.name),
    ).insert(affiliation_key(), FieldValue::Text(team.affiliation))
}

/// Encodes a team as the document to store.
pub fn encode_team(team: &Team) -> (doc: Document)
    ensures
        document_fields(doc) == encode_team_spec(team@),
{
    let mut doc = empty_document();
    put_i32(&mut doc, "number", narrow(team.number));
    put_text(&mut doc, "name", team.name.as_str());
    put_text(&mut doc, "affiliation", team.affiliation.as_str());
    doc
}

/// The team that stored fields denote: `number` as a 32-bit integer, `name`
/// and `affiliation` as strings. The first field, in that order, that is
/// missing or of another type is the error.
pub open spec fn decode_team_spec(fields: Map<Seq<char>, FieldValue>) -> Result<
    TeamView,
    ServiceErrorView,
> {
    match field_as_i32(fields, number_key()) {
        Err(reason) => Err(storage_error(number_key(), reason)),
        Ok(number) => match field_as_text(fields, name_key()) {
            Err(reason) => Err(storage_error(name_key(), reason)),
            Ok(name) => match field_as_text(fields, affiliation_key()) {
                Err(reason) => Err(storage_error(affiliation_key(), reason)),
                Ok(affiliation) => Ok(
                    TeamView { number: widen_spec(number), name, affiliation },
                ),
            },
        },
    }
}

/// Decodes a stored team. Nothing is defaulted: a missing or mistyped field
/// fails the decode and is named in the error.
pub fn decode_team(doc: &Document) -> (outcome: Result<Team, ServiceError>)
    ensures
        team_outcome(outcome) == decode_team_spec(document_fields(*doc)),
{
    let number: u32 = match read_i32(doc, "number") {
        Ok(stored) => widen(stored),
        Err(reason) => {
            return Err(ServiceError::StorageDecode { field: String::from_str("number"), reason });
        },
    };
    let name = match read_text(doc, "name") {
        Ok(text) => text,
        Err(reason) => {
            return Err(ServiceError::StorageDecode { field: String::from_str("name"), reason });
        },
    };
    let affiliation = match read_text(doc, "affiliation") {
        Ok(text) => text,
        Err(reason) => {
            return Err(
                ServiceError::StorageDecode { field: String::from_str("affiliation"), reason },
            );
        },
    };
    Ok(Team { number, name, affiliation })
}

/// The filter that matches the stored team with this number.
pub open spec fn team_filter_spec(number: u32) -> Map<Seq<char>, FieldValue> {
    no_fields().insert(number_key(), stored_number(number))
}

/// Builds the filter for a lookup of a team by its number.
pub fn team_filter(number: u32) -> (filter: Document)
    ensures
        document_fields(filter) == team_filter_spec(number),
{
    let mut filter = empty_document();
    put_i32(&mut filter, "number", narrow(number));
    filter
}

/// What an array element contributes to a list of team numbers: its number
/// widened where it is a 32-bit integer, nothing where it is not.
pub open spec fn kept_number(item: Option<i32>) -> Option<u32> {
    match item {
        Some(stored) => Some(widen_spec(stored)),
        None => None,
    }
}

/// The team numbers among array elements, in order; elements of another type
/// are skipped.
pub open spec fn kept_numbers(items: Seq<Option<i32>>) -> Seq<u32> {
    items.filter_map(|item: Option<i32>| kept_number(item))
}

/// Collects the team numbers among array elements, skipping elements that
/// are not 32-bit integers.
pub fn keep_numbers(items: &Vec<Option<i32>>) -> (numbers: Vec<u32>)
    ensures
        numbers@ == kept_numbers(items@),
{
    let mut numbers: Vec<u32> = Vec::new();
    let mut i: usize = 0;
    while i < items.len()
        invariant
            i <= items.len(),
            numbers@ == kept_numbers(items@.take(i as int)),
        decreases items.len() - i,
    {
        proof {
            items@.lemma_filter_map_take_succ(|item: Option<i32>| kept_number(item), i as int);
        }
        match items[i] {
            Some(stored) => {
                numbers.push(widen(stored));
            },
            None => {},
        }
        i = i + 1;
    }
    proof {
        assert(items@.take(i as int) =~= items@);
    }
    numbers
}

/// The tournament that a submission becomes once it has its identifier.
pub open spec fn with_id_spec(input: NewTournamentView, id: u32) -> TournamentView {
    TournamentView {
        id,
        name: input.name,
        teams: input.teams,
        current_stage: input.current_stage,
    }
}

/// Builds the canonical tournament from a submission and its freshly
/// assigned identifier.
pub fn with_id(input: NewTournament, id: u32) -> (tournament: Tournament)
    ensures
        tournament@ == with_id_spec(input@, id),
{
    Tournament { id, name: input.name, teams: input.teams, current_stage: input.current_stage }
}

/// The fields of the document that stores `tournament`.
pub open spec fn encode_tournament_spec(tournament: TournamentView) -> Map<
    Seq<char>,
    FieldValue,
> {
    no_fields().insert(id_key(), stored_number(tournament.id)).insert(
        name_key(),
        FieldValue::Text(tournament.name),
    ).insert(teams_key(), stored_numbers(tournament.teams)).insert(
        current_stage_key(),
        FieldValue::Text(tournament.current_stage),
    )
}

/// Encodes a tournament as the document to store.
pub fn encode_tournament(tournament: &Tournament) -> (doc: Document)
    ensures
        document_fields(doc) == encode_tournament_spec(tournament@),
{
    let mut doc = empty_document();
    put_i32(&mut doc, "id", narrow(tournament.id));
    put_text(&mut doc, "name", tournament.name.as_str());
    let teams = narrow_all(&tournament.teams);
    put_i32_list(&mut doc, "teams", &teams);
    proof {
        assert(teams@.map_values(|v: i32| FieldValue::Int32(v)) =~= tournament.teams@.map_values(
            |number: u32| stored_number(number),
        ));
    }
    put_text(&mut doc, "current_stage", tournament.current_stage.as_str());
    doc
}

/// The tournament that stored fields denote: `id` as a 32-bit integer, `name`
/// as a string, `teams` as an array, `current_stage` as a string. The first
/// field, in that order, that is missing or of another type is the error.
pub open spec fn decode_tournament_spec(fields: Map<Seq<char>, FieldValue>) -> Result<
    TournamentView,
    ServiceErrorView,
> {
    match field_as_i32(fields, id_key()) {
        Err(reason) => Err(storage_error(id_key(), reason)),
        Ok(id) => match field_as_text(fields, name_key()) {
            Err(reason) => Err(storage_error(name_key(), reason)),
            Ok(name) => match field_as_i32_items(fields, teams_key()) {
                Err(reason) => Err(storage_error(teams_key(), reason)),
                Ok(items) => match field_as_text(fields, current_stage_key()) {
                    Err(reason) => Err(storage_error(current_stage_key(), reason)),
                    Ok(current_stage) => Ok(
                        TournamentView {
                            id: widen_spec(id),
                            name,
                            teams: kept_numbers(items),
                            current_stage,
                        },
                    ),
                },
            },
        },
    }
}

/// Decodes a stored tournament. A missing or mistyped field fails the decode
/// and is named in the error; within `teams`, elements that are not 32-bit
/// integers are skipped.
pub fn decode_tournament(doc: &Document) -> (outcome: Result<Tournament, ServiceError>)
    ensures
        tournament_outcome(outcome) == decode_tournament_spec(document_fields(*doc)),
{
    let id: u32 = match read_i32(doc, "id") {
        Ok(stored) => widen(stored),
        Err(reason) => {
            return Err(ServiceError::StorageDecode { field: String::from_str("id"), reason });
        },
    };
    let name = match read_text(doc, "name") {
        Ok(text) => text,
        Err(reason) => {
            return Err(ServiceError::StorageDecode { field: String::from_str("name"), reason });
        },
    };
    let teams = match read_i32_items(doc, "teams") {
        Ok(items) => keep_numbers(&items),
        Err(reason) => {
            return Err(ServiceError::StorageDecode { field: String::from_str("teams"), reason });
        },
    };
    let current_stage = match read_text(doc, "current_stage") {
        Ok(text) => text,
        Err(reason) => {
            return Err(
                ServiceError::StorageDecode { field: String::from_str("current_stage"), reason },
            );
        },
    };
    Ok(Tournament { id, name, teams, current_stage })
}

/// The filter that matches the stored tournament with this identifier.
pub open spec fn tournament_filter_spec(id: u32) -> Map<Seq<char>, FieldValue> {
    no_fields().insert(id_key(), stored_number(id))
}

/// Builds the filter for a lookup of a tournament by its identifier.
pub fn tournament_filter(id: u32) -> (filter: Document)
    ensures
        document_fields(filter) == tournament_filter_spec(id),
{
    let mut filter = empty_document();
    put_i32(&mut filter, "id", narrow(id));
    filter
}

/// Numbers are read back from what is stored for them, each and in order.
pub proof fn lemma_stored_numbers_are_kept(numbers: Seq<u32>)
    ensures
        kept_numbers(
            numbers.map_values(|number: u32| stored_number(number)).map_values(
                |value: FieldValue| value_as_i32(value),
            ),
        ) == numbers,
    decreases numbers.len(),
{
    let keep = |item: Option<i32>| kept_number(item);
    let items = numbers.map_values(|number: u32| stored_number(number)).map_values(
        |value: FieldValue| value_as_i32(value),
    );
    if numbers.len() == 0 {
        assert(items.filter_map(keep) =~= numbers);
    } else {
        let front = numbers.drop_last();
        let front_items = front.map_values(|number: u32| stored_number(number)).map_values(
            |value: FieldValue| value_as_i32(value),
        );
        assert(items.drop_last() =~= front_items);
        lemma_stored_numbers_are_kept(front);
        assert(items.last() == Some(narrow_spec(numbers.last())));
        assert(keep(items.last()) == Some(numbers.last()));
        assert(items.filter_map(keep) == front_items.filter_map(keep) + seq![numbers.last()]);
        assert(front + seq![numbers.last()] =~= numbers);
    }
}

/// Every team survives being stored and read back: decoding the document
/// that encodes it gives the same team, whatever its number, and with an
/// empty name or affiliation as well.
pub proof fn law_team_round_trip(team: TeamView)
    ensures
        decode_team_spec(encode_team_spec(team)) == Ok::<TeamView, ServiceErrorView>(team),
{
    lemma_keys_differ();
}

/// Every tournament survives being stored and read back: decoding the
/// document that encodes it gives the same tournament, whatever its
/// identifier and team numbers, and with an empty list of teams as well.
pub proof fn law_tournament_round_trip(tournament: TournamentView)
    ensures
        decode_tournament_spec(encode_tournament_spec(tournament)) == Ok::<
            TournamentView,
            ServiceErrorView,
        >(tournament),
{
    lemma_keys_differ();
    lemma_stored_numbers_are_kept(tournament.teams);
}

} // verus!
