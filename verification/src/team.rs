//! The team service: create a team, fetch a team by its number.
//!
//! Each operation is a short exchange with the store. A function of this
//! module decides one step of it: it returns either the next request for the
//! store, with what the service keeps in mind meanwhile, or the outcome. The
//! caller performs the request and resumes with the reply.

use crate::codec::{
    decode_team, decode_team_input, decode_team_input_spec, decode_team_spec, encode_team,
    encode_team_spec, law_team_round_trip, law_widen_undoes_narrow, lemma_keys_differ,
    number_error, number_key, stored_number, team_filter, team_filter_spec, team_outcome,
};
use crate::decimal::{parse_u32, parse_u32_spec};
use crate::errors::{unexpected_reply, ServiceError, ServiceErrorView};
use crate::models::{NewTeam, NewTeamView, Team, TeamView};
use crate::store::{
    document_matches, lemma_first_match_found, lemma_first_match_push, StoreModel, StoreReply,
    StoreReplyView, StoreRequest, StoreRequestView,
};
use vstd::prelude::*;
use vstd::string::StringExecFns;

verus! {

/// Name of the collection that holds the teams.
pub open spec fn teams_collection() -> Seq<char> {
    "teams"@
}

/// What the team service waits for.
#[derive(Debug, PartialEq)]
pub enum TeamPending {
    /// Creating: the store was asked whether the number is taken.
    Lookup(Team),
    /// Creating: the store was asked to insert the team.
    Insert(Team),
    /// Fetching: the store was asked for the team.
    Fetch,
}

/// Mathematical value of a [`TeamPending`].
pub enum TeamPendingView {
    Lookup(TeamView),
    Insert(TeamView),
    Fetch,
}

impl View for TeamPending {
    type V = TeamPendingView;

    open spec fn view(&self) -> TeamPendingView {
        match *self {
            TeamPending::Lookup(team) => TeamPendingView::Lookup(team@),
            TeamPending::Insert(team) => TeamPendingView::Insert(team@),
            TeamPending::Fetch => TeamPendingView::Fetch,
        }
    }
}

/// Where an operation of the team service stands.
#[derive(Debug, PartialEq)]
pub enum TeamStep {
    /// Perform the request, and resume with the reply and what is pending.
    Ask(StoreRequest, TeamPending),
    /// The operation is over.
    Done(Result<Team, ServiceError>),
}

/// Mathematical value of a [`TeamStep`].
pub enum TeamStepView {
    Ask(StoreRequestView, TeamPendingView),
    Done(Result<TeamView, ServiceErrorView>),
}

impl View for TeamStep {
    type V = TeamStepView;

    open spec fn view(&self) -> TeamStepView {
        match *self {
            TeamStep::Ask(request, pending) => TeamStepView::Ask(request@, pending@),
            TeamStep::Done(outcome) => TeamStepView::Done(team_outcome(outcome)),
        }
    }
}

/// The request that fetches the stored team with this number.
pub open spec fn team_lookup(number: u32) -> StoreRequestView {
    StoreRequestView::FindOne { collection: teams_collection(), filter: team_filter_spec(number) }
}

/// The first step of creating a team: a submission whose number does not
/// parse is refused at once; any other leads to asking the store whether the
/// number is taken.
pub open spec fn new_team_spec(input: NewTeamView) -> TeamStepView {
    match decode_team_input_spec(input) {
        Err(error) => TeamStepView::Done(Err(error)),
        Ok(team) => TeamStepView::Ask(team_lookup(team.number), TeamPendingView::Lookup(team)),
    }
}

/// The first step of fetching a team by number.
pub open spec fn get_by_number_spec(number: u32) -> TeamStepView {
    TeamStepView::Ask(team_lookup(number), TeamPendingView::Fetch)
}

/// The first step of fetching a team by the number as a request path gives
/// it: text that does not parse is refused at once.
pub open spec fn get_team_spec(number: Seq<char>) -> TeamStepView {
    match parse_u32_spec(number) {
        Some(parsed) => get_by_number_spec(parsed),
        None => TeamStepView::Done(Err(number_error())),
    }
}

/// The step after a reply. A failure of the store ends the operation as a
/// store error. While creating: a team found under the number ends it as a
/// duplicate, none found leads to the insert, and the insert done ends it
/// with the team. While fetching: the document found ends it with what it
/// decodes to, none found as not found. A reply that does not answer the
/// pending request ends it as a store error.
pub open spec fn resume_team_spec(pending: TeamPendingView, reply: StoreReplyView) -> TeamStepView {
    match (pending, reply) {
        (_, StoreReplyView::Failed(message)) => TeamStepView::Done(
            Err(ServiceErrorView::Store { message }),
        ),
        (TeamPendingView::Lookup(team), StoreReplyView::Found(Some(_))) => TeamStepView::Done(
            Err(ServiceErrorView::Duplicate { number: team.number }),
        ),
        (TeamPendingView::Lookup(team), StoreReplyView::Found(None)) => TeamStepView::Ask(
            StoreRequestView::InsertOne {
                collection: teams_collection(),
                document: encode_team_spec(team),
            },
            TeamPendingView::Insert(team),
        ),
        (TeamPendingView::Insert(team), StoreReplyView::Inserted) => TeamStepView::Done(Ok(team)),
        (TeamPendingView::Fetch, StoreReplyView::Found(Some(document))) => TeamStepView::Done(
            decode_team_spec(document),
        ),
        (TeamPendingView::Fetch, StoreReplyView::Found(None)) => TeamStepView::Done(
            Err(ServiceErrorView::NotFound),
        ),
        _ => TeamStepView::Done(Err(unexpected_reply())),
    }
}

fn team_lookup_request(number: u32) -> (request: StoreRequest)
    ensures
        request@ == team_lookup(number),
{
    StoreRequest::FindOne { collection: String::from_str("teams"), filter: team_filter(number) }
}

/// Starts the creation of a team from a submitted form.
///
/// A number that is not decimal text within `u32` ends the operation with a
/// validation error, before anything is asked of the store.
pub fn new_team(info: &NewTeam) -> (step: TeamStep)
    ensures
        step@ == new_team_spec(info@),
{
    match decode_team_input(info) {
        Err(error) => TeamStep::Done(Err(error)),
        Ok(team) => TeamStep::Ask(team_lookup_request(team.number), TeamPending::Lookup(team)),
    }
}

/// Starts the fetch of the team with this number.
pub fn get_by_number(number: u32) -> (step: TeamStep)
    ensures
        step@ == get_by_number_spec(number),
{
    TeamStep::Ask(team_lookup_request(number), TeamPending::Fetch)
}

/// Starts the fetch of a team by the number as a request path gives it.
pub fn get_team(number: &str) -> (step: TeamStep)
    ensures
        step@ == get_team_spec(number@),
{
    match parse_u32(number) {
        Some(parsed) => get_by_number(parsed),
        None => TeamStep::Done(
            Err(
                ServiceError::Validation {
                    field: String::from_str("number"),
                    reason: String::from_str("not an integer"),
                },
            ),
        ),
    }
}

/// Continues an operation of the team service with the store's reply.
pub fn resume_team(pending: TeamPending, reply: StoreReply) -> (step: TeamStep)
    ensures
        step@ == resume_team_spec(pending@, reply@),
{
    match reply {
        StoreReply::Failed(message) => TeamStep::Done(Err(ServiceError::Store { message })),
        StoreReply::Found(found) => match pending {
            TeamPending::Lookup(team) => match found {
                Some(_) => TeamStep::Done(Err(ServiceError::Duplicate { number: team.number })),
                None => {
                    let request = StoreRequest::InsertOne {
                        collection: String::from_str("teams"),
                        document: encode_team(&team),
                    };
                    TeamStep::Ask(request, TeamPending::Insert(team))
                },
            },
            TeamPending::Fetch => match found {
                Some(document) => TeamStep::Done(decode_team(&document)),
                None => TeamStep::Done(Err(ServiceError::NotFound)),
            },
            TeamPending::Insert(_) => TeamStep::Done(Err(ServiceError::unexpected_reply())),
        },
        StoreReply::Inserted => match pending {
            TeamPending::Insert(team) => TeamStep::Done(Ok(team)),
            _ => TeamStep::Done(Err(ServiceError::unexpected_reply())),
        },
        StoreReply::Incremented(_) => TeamStep::Done(Err(ServiceError::unexpected_reply())),
    }
}

/// One exchange with a store that works: the request of `step` is performed
/// and the operation resumes with the reply. An operation that is over stays
/// as it is.
pub open spec fn team_exchange(store: StoreModel, step: TeamStepView) -> (
    StoreModel,
    TeamStepView,
) {
    match step {
        TeamStepView::Done(_) => (store, step),
        TeamStepView::Ask(request, pending) => {
            let (next_store, reply) = store.apply(request);
            (next_store, resume_team_spec(pending, reply))
        },
    }
}

/// How many round-trips an operation may still take.
pub open spec fn team_steps_left(step: TeamStepView) -> nat {
    match step {
        TeamStepView::Ask(_, TeamPendingView::Lookup(_)) => 2,
        TeamStepView::Ask(_, _) => 1,
        TeamStepView::Done(_) => 0,
    }
}

/// An operation of the team service carried through against a store that
/// works, with nobody else writing meanwhile: the store it leaves and the
/// outcome.
pub open spec fn run_team(store: StoreModel, step: TeamStepView) -> (
    StoreModel,
    Result<TeamView, ServiceErrorView>,
)
    decreases team_steps_left(step),
{
    match step {
        TeamStepView::Done(outcome) => (store, outcome),
        TeamStepView::Ask(_, _) => {
            let (next_store, next) = team_exchange(store, step);
            run_team(next_store, next)
        },
    }
}

/// Whether no stored team has this number.
pub open spec fn number_unused(store: StoreModel, number: u32) -> bool {
    store.find_one(teams_collection(), team_filter_spec(number)) is None
}

/// What creating a team comes to: a number that does not parse is refused
/// and so is a number that a stored team has, both without a change to the
/// store; any other submission is stored and returned.
pub open spec fn create_team_outcome(store: StoreModel, input: NewTeamView) -> (
    StoreModel,
    Result<TeamView, ServiceErrorView>,
) {
    match decode_team_input_spec(input) {
        Err(error) => (store, Err(error)),
        Ok(team) => if number_unused(store, team.number) {
            (store.insert_one(teams_collection(), encode_team_spec(team)), Ok(team))
        } else {
            (store, Err(ServiceErrorView::Duplicate { number: team.number }))
        },
    }
}

/// What fetching a team comes to: what the first stored team with the number
/// decodes to, and not found where there is none. The store stays as it is.
pub open spec fn fetch_team_outcome(store: StoreModel, number: u32) -> (
    StoreModel,
    Result<TeamView, ServiceErrorView>,
) {
    match store.find_one(teams_collection(), team_filter_spec(number)) {
        Some(document) => (store, decode_team_spec(document)),
        None => (store, Err(ServiceErrorView::NotFound)),
    }
}

/// The steps of a creation, carried through, come to [`create_team_outcome`].
pub proof fn lemma_create_team_run(store: StoreModel, input: NewTeamView)
    ensures
        run_team(store, new_team_spec(input)) == create_team_outcome(store, input),
{
    match decode_team_input_spec(input) {
        Err(_) => {},
        Ok(team) => {
            let (looked, second) = team_exchange(store, new_team_spec(input));
            assert(run_team(store, new_team_spec(input)) == run_team(looked, second));
            if number_unused(store, team.number) {
                let (written, third) = team_exchange(looked, second);
                assert(run_team(looked, second) == run_team(written, third));
            }
        },
    }
}

/// The steps of a fetch, carried through, come to [`fetch_team_outcome`].
pub proof fn lemma_fetch_team_run(store: StoreModel, number: u32)
    ensures
        run_team(store, get_by_number_spec(number)) == fetch_team_outcome(store, number),
{
    let (looked, second) = team_exchange(store, get_by_number_spec(number));
    assert(run_team(store, get_by_number_spec(number)) == run_team(looked, second));
}

/// Creating a team under a number that no stored team has succeeds with the
/// team as submitted, and a fetch by that number afterwards returns the same
/// team, whatever the number.
pub proof fn law_created_team_is_found(store: StoreModel, input: NewTeamView, number: u32)
    requires
        parse_u32_spec(input.number) == Some(number),
        number_unused(store, number),
    ensures
        ({
            let team = TeamView { number, name: input.name, affiliation: input.affiliation };
            let (after, created) = run_team(store, new_team_spec(input));
            &&& created == Ok::<TeamView, ServiceErrorView>(team)
            &&& after == store.insert_one(teams_collection(), encode_team_spec(team))
            &&& run_team(after, get_by_number_spec(number)) == (
                after,
                Ok::<TeamView, ServiceErrorView>(team),
            )
            &&& run_team(after, get_team_spec(input.number)) == (
                after,
                Ok::<TeamView, ServiceErrorView>(team),
            )
        }),
{
    let team = TeamView { number, name: input.name, affiliation: input.affiliation };
    let document = encode_team_spec(team);
    let filter = team_filter_spec(number);
    let after = store.insert_one(teams_collection(), document);
    lemma_create_team_run(store, input);
    lemma_fetch_team_run(after, number);
    lemma_keys_differ();
    assert(document_matches(document, filter));
    lemma_first_match_push(store.documents(teams_collection()), document, filter);
    assert(after.documents(teams_collection()) == store.documents(teams_collection()).push(
        document,
    ));
    law_team_round_trip(team);
}

/// Creating a team under a number that a stored team has fails as a
/// duplicate of that number and leaves the store as it was.
pub proof fn law_duplicate_team_is_refused(store: StoreModel, input: NewTeamView, number: u32)
    requires
        parse_u32_spec(input.number) == Some(number),
        !number_unused(store, number),
    ensures
        run_team(store, new_team_spec(input)) == (
            store,
            Err::<TeamView, ServiceErrorView>(ServiceErrorView::Duplicate { number }),
        ),
{
    lemma_create_team_run(store, input);
}

/// Creating a team from a number that does not parse fails as a validation
/// error on the field `number` at the first step: nothing is asked of the
/// store, which stays as it was.
pub proof fn law_bad_number_is_refused_unasked(store: StoreModel, input: NewTeamView)
    requires
        parse_u32_spec(input.number) is None,
    ensures
        new_team_spec(input) == TeamStepView::Done(Err(number_error())),
        run_team(store, new_team_spec(input)) == (
            store,
            Err::<TeamView, ServiceErrorView>(number_error()),
        ),
{
}

/// Fetching a team by a number that no stored team has fails as not found.
pub proof fn law_absent_team_is_not_found(store: StoreModel, number: u32)
    requires
        number_unused(store, number),
    ensures
        run_team(store, get_by_number_spec(number)) == (
            store,
            Err::<TeamView, ServiceErrorView>(ServiceErrorView::NotFound),
        ),
{
    lemma_fetch_team_run(store, number);
}

/// Whether no two stored teams have the same number.
pub open spec fn numbers_unique(store: StoreModel) -> bool {
    let teams = store.documents(teams_collection());
    forall|i: int, j: int, number: u32|
        0 <= i < j < teams.len() ==> !(#[trigger] document_matches(teams[i], team_filter_spec(number))
            && #[trigger] document_matches(teams[j], team_filter_spec(number)))
}

/// Creating a team, carried through with nobody else writing meanwhile,
/// keeps the numbers of the stored teams unique, whatever is submitted.
pub proof fn law_create_keeps_numbers_unique(store: StoreModel, input: NewTeamView)
    requires
        numbers_unique(store),
    ensures
        numbers_unique(run_team(store, new_team_spec(input)).0),
{
    lemma_create_team_run(store, input);
    match decode_team_input_spec(input) {
        Err(_) => {},
        Ok(team) => {
            if number_unused(store, team.number) {
                let document = encode_team_spec(team);
                let teams = store.documents(teams_collection());
                let after = store.insert_one(teams_collection(), document);
                let extended = after.documents(teams_collection());
                assert(extended == teams.push(document));
                lemma_first_match_found(teams, team_filter_spec(team.number));
                lemma_keys_differ();
                assert forall|i: int, j: int, other: u32| 0 <= i < j < extended.len() implies !(
                #[trigger] document_matches(extended[i], team_filter_spec(other)) && #[trigger] document_matches(
                    extended[j],
                    team_filter_spec(other),
                )) by {
                    if j < teams.len() {
                        assert(extended[i] == teams[i] && extended[j] == teams[j]);
                    } else if document_matches(extended[j], team_filter_spec(other)) {
                        assert(team_filter_spec(other).contains_key(number_key()));
                        assert(document[number_key()] == stored_number(other));
                        law_widen_undoes_narrow(other, 0);
                        law_widen_undoes_narrow(team.number, 0);
                        assert(other == team.number);
                        assert(extended[i] == teams[i]);
                    }
                }
            }
        },
    }
}

} // verus!
