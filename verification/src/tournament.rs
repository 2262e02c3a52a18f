//! The tournament service: create a tournament under a freshly minted
//! identifier, fetch a tournament by its identifier.
//!
//! Identifiers come from a counter that the store increments in one
//! indivisible step, so that no two creations, however they interleave, are
//! given the same one. As in the team service, a function of this module
//! decides one step of an operation and the caller talks to the store.

use crate::codec::{
    decode_tournament, decode_tournament_spec, encode_tournament, encode_tournament_spec,
    id_key, law_tournament_round_trip, law_widen_undoes_narrow, lemma_keys_differ,
    stored_number, tournament_filter, tournament_filter_spec, tournament_outcome, widen_spec,
    with_id, with_id_spec,
};
use crate::decimal::{parse_u32, parse_u32_spec};
use crate::errors::{unexpected_reply, ServiceError, ServiceErrorView};
use crate::models::{
    numbers_view, text_view, tournament_form_spec, NewTournament, NewTournamentView, Tournament,
    TournamentView,
};
use crate::store::{
    document_matches, first_match, lemma_first_match_found, lemma_first_match_push, StoreModel,
    StoreReply, StoreReplyView, StoreRequest, StoreRequestView,
};
use crate::sequence::{
    counter_collection, issued, issued_spec, next_request, next_request_spec,
};
use vstd::prelude::*;
use vstd::string::StringExecFns;

verus! {

/// Name of the collection that holds the tournaments.
pub open spec fn tournaments_collection() -> Seq<char> {
    "tournaments"@
}

/// Name of the counter that mints tournament identifiers.
pub open spec fn tournaments_counter() -> Seq<char> {
    "tournaments"@
}

/// The error for an identifier that does not parse.
pub open spec fn id_error() -> ServiceErrorView {
    ServiceErrorView::Validation { field: "id"@, reason: "not an integer"@ }
}

/// What the tournament service waits for.
#[derive(Debug, PartialEq)]
pub enum TournamentPending {
    /// Creating: the store was asked for the next identifier.
    Sequence(NewTournament),
    /// Creating: the store was asked to insert the tournament.
    Insert(Tournament),
    /// Fetching: the store was asked for the tournament.
    Fetch,
}

/// Mathematical value of a [`TournamentPending`].
pub enum TournamentPendingView {
    Sequence(NewTournamentView),
    Insert(TournamentView),
    Fetch,
}

impl View for TournamentPending {
    type V = TournamentPendingView;

    open spec fn view(&self) -> TournamentPendingView {
        match *self {
            TournamentPending::Sequence(input) => TournamentPendingView::Sequence(input@),
            TournamentPending::Insert(tournament) => TournamentPendingView::Insert(tournament@),
            TournamentPending::Fetch => TournamentPendingView::Fetch,
        }
    }
}

/// Where an operation of the tournament service stands.
#[derive(Debug, PartialEq)]
pub enum TournamentStep {
    /// Perform the request, and resume with the reply and what is pending.
    Ask(StoreRequest, TournamentPending),
    /// The operation is over.
    Done(Result<Tournament, ServiceError>),
}

/// Mathematical value of a [`TournamentStep`].
pub enum TournamentStepView {
    Ask(StoreRequestView, TournamentPendingView),
    Done(Result<TournamentView, ServiceErrorView>),
}

impl View for TournamentStep {
    type V = TournamentStepView;

    open spec fn view(&self) -> TournamentStepView {
        match *self {
            TournamentStep::Ask(request, pending) => TournamentStepView::Ask(request@, pending@),
            TournamentStep::Done(outcome) => TournamentStepView::Done(tournament_outcome(outcome)),
        }
    }
}

/// The creation of a tournament that waits for its insert.
pub open spec fn inserting(tournament: TournamentView) -> TournamentStepView {
    TournamentStepView::Ask(
        StoreRequestView::InsertOne {
            collection: tournaments_collection(),
            document: encode_tournament_spec(tournament),
        },
        TournamentPendingView::Insert(tournament),
    )
}

/// The first step of creating a tournament: ask the store for the next
/// identifier.
pub open spec fn new_tournament_spec(input: NewTournamentView) -> TournamentStepView {
    TournamentStepView::Ask(
        next_request_spec(tournaments_counter()),
        TournamentPendingView::Sequence(input),
    )
}

/// The first step of fetching a tournament by identifier.
pub open spec fn get_by_id_spec(id: u32) -> TournamentStepView {
    TournamentStepView::Ask(
        StoreRequestView::FindOne {
            collection: tournaments_collection(),
            filter: tournament_filter_spec(id),
        },
        TournamentPendingView::Fetch,
    )
}

/// The first step of fetching a tournament by the identifier as a request
/// path gives it: text that does not parse is refused at once.
pub open spec fn get_tournament_spec(id: Seq<char>) -> TournamentStepView {
    match parse_u32_spec(id) {
        Some(parsed) => get_by_id_spec(parsed),
        None => TournamentStepView::Done(Err(id_error())),
    }
}

/// The step after a reply. A failure of the store ends the operation as a
/// store error. While creating: the identifier that the sequence issued leads
/// to the insert, and the insert done ends it with the tournament. While
/// fetching: the document found ends it with what it decodes to, none found
/// as not found. A reply that does not answer the pending request ends it as
/// a store error.
pub open spec fn resume_tournament_spec(
    pending: TournamentPendingView,
    reply: StoreReplyView,
) -> TournamentStepView {
    match (pending, reply) {
        (_, StoreReplyView::Failed(message)) => TournamentStepView::Done(
            Err(ServiceErrorView::Store { message }),
        ),
        (TournamentPendingView::Sequence(input), _) => match issued_spec(reply) {
            Ok(id) => inserting(with_id_spec(input, id)),
            Err(error) => TournamentStepView::Done(Err(error)),
        },
        (
            TournamentPendingView::Insert(tournament),
            StoreReplyView::Inserted,
        ) => TournamentStepView::Done(Ok(tournament)),
        (
            TournamentPendingView::Fetch,
            StoreReplyView::Found(Some(document)),
        ) => TournamentStepView::Done(decode_tournament_spec(document)),
        (TournamentPendingView::Fetch, StoreReplyView::Found(None)) => TournamentStepView::Done(
            Err(ServiceErrorView::NotFound),
        ),
        _ => TournamentStepView::Done(Err(unexpected_reply())),
    }
}

/// Starts the creation of a tournament. The submission carries no
/// identifier; the first thing asked of the store is the next one.
pub fn new_tournament(info: NewTournament) -> (step: TournamentStep)
    ensures
        step@ == new_tournament_spec(info@),
{
    TournamentStep::Ask(next_request("tournaments"), TournamentPending::Sequence(info))
}

/// The first step of creating a tournament from the fields of a form: a
/// form that lacks a field is refused at once.
pub open spec fn new_tournament_from_form_spec(
    name: Option<Seq<char>>,
    teams: Option<Seq<u32>>,
    current_stage: Option<Seq<char>>,
) -> TournamentStepView {
    match tournament_form_spec(name, teams, current_stage) {
        Ok(input) => new_tournament_spec(input),
        Err(error) => TournamentStepView::Done(Err(error)),
    }
}

/// Starts the creation of a tournament from the fields of a form. A field
/// that the form left out ends the operation with a validation error that
/// names it, before anything is asked of the store.
pub fn new_tournament_from_form(
    name: Option<String>,
    teams: Option<Vec<u32>>,
    current_stage: Option<String>,
) -> (step: TournamentStep)
    ensures
        step@ == new_tournament_from_form_spec(
            text_view(name),
            numbers_view(teams),
            text_view(current_stage),
        ),
{
    match NewTournament::from_form(name, teams, current_stage) {
        Ok(input) => new_tournament(input),
        Err(error) => TournamentStep::Done(Err(error)),
    }
}

/// Starts the fetch of the tournament with this identifier.
pub fn get_by_id(id: u32) -> (step: TournamentStep)
    ensures
        step@ == get_by_id_spec(id),
{
    let request = StoreRequest::FindOne {
        collection: String::from_str("tournaments"),
        filter: tournament_filter(id),
    };
    TournamentStep::Ask(request, TournamentPending::Fetch)
}

/// Starts the fetch of a tournament by the identifier as a request path
/// gives it.
pub fn get_tournament(id: &str) -> (step: TournamentStep)
    ensures
        step@ == get_tournament_spec(id@),
{
    match parse_u32(id) {
        Some(parsed) => get_by_id(parsed),
        None => TournamentStep::Done(
            Err(
                ServiceError::Validation {
                    field: String::from_str("id"),
                    reason: String::from_str("not an integer"),
                },
            ),
        ),
    }
}

/// Continues an operation of the tournament service with the store's reply.
pub fn resume_tournament(pending: TournamentPending, reply: StoreReply) -> (step: TournamentStep)
    ensures
        step@ == resume_tournament_spec(pending@, reply@),
{
    match pending {
        TournamentPending::Sequence(input) => match issued(reply) {
            Ok(id) => {
                let tournament = with_id(input, id);
                let request = StoreRequest::InsertOne {
                    collection: String::from_str("tournaments"),
                    document: encode_tournament(&tournament),
                };
                TournamentStep::Ask(request, TournamentPending::Insert(tournament))
            },
            Err(error) => TournamentStep::Done(Err(error)),
        },
        TournamentPending::Insert(tournament) => match reply {
            StoreReply::Failed(message) => TournamentStep::Done(
                Err(ServiceError::Store { message }),
            ),
            StoreReply::Inserted => TournamentStep::Done(Ok(tournament)),
            _ => TournamentStep::Done(Err(ServiceError::unexpected_reply())),
        },
        TournamentPending::Fetch => match reply {
            StoreReply::Failed(message) => TournamentStep::Done(
                Err(ServiceError::Store { message }),
            ),
            StoreReply::Found(Some(document)) => TournamentStep::Done(
                decode_tournament(&document),
            ),
            StoreReply::Found(None) => TournamentStep::Done(Err(ServiceError::NotFound)),
            _ => TournamentStep::Done(Err(ServiceError::unexpected_reply())),
        },
    }
}

/// One exchange with a store that works: the request of `step` is performed
/// in one indivisible step and the operation resumes with the reply. An
/// operation that is over stays as it is.
pub open spec fn tournament_exchange(store: StoreModel, step: TournamentStepView) -> (
    StoreModel,
    TournamentStepView,
) {
    match step {
        TournamentStepView::Done(_) => (store, step),
        TournamentStepView::Ask(request, pending) => {
            let (next_store, reply) = store.apply(request);
            (next_store, resume_tournament_spec(pending, reply))
        },
    }
}

/// How many round-trips an operation may still take.
pub open spec fn tournament_steps_left(step: TournamentStepView) -> nat {
    match step {
        TournamentStepView::Ask(_, TournamentPendingView::Sequence(_)) => 2,
        TournamentStepView::Ask(_, _) => 1,
        TournamentStepView::Done(_) => 0,
    }
}

/// An operation of the tournament service carried through against a store
/// that works, with nobody else writing meanwhile: the store it leaves and
/// the outcome.
pub open spec fn run_tournament(store: StoreModel, step: TournamentStepView) -> (
    StoreModel,
    Result<TournamentView, ServiceErrorView>,
)
    decreases tournament_steps_left(step),
{
    match step {
        TournamentStepView::Done(outcome) => (store, outcome),
        TournamentStepView::Ask(_, _) => {
            let (next_store, next) = tournament_exchange(store, step);
            run_tournament(next_store, next)
        },
    }
}

/// The value of the counter that mints tournament identifiers.
pub open spec fn last_issued(store: StoreModel) -> int {
    store.counter(counter_collection(), tournaments_counter())
}

/// Whether the counter that mints tournament identifiers can go further.
pub open spec fn has_room(store: StoreModel) -> bool {
    i32::MIN <= last_issued(store) + 1 <= i32::MAX
}

/// The identifier that the next creation is given, where the counter has
/// room.
pub open spec fn next_id(store: StoreModel) -> u32 {
    widen_spec((last_issued(store) + 1) as i32)
}

/// The store after the counter that mints tournament identifiers went up.
pub open spec fn counted(store: StoreModel) -> StoreModel {
    store.increment(counter_collection(), tournaments_counter())
}

/// The end of a creation that found the counter exhausted.
pub open spec fn exhausted() -> TournamentStepView {
    TournamentStepView::Done(
        Err(ServiceErrorView::Store { message: crate::store::counter_exhausted() }),
    )
}

/// Whether no stored tournament has this identifier.
pub open spec fn id_unused(store: StoreModel, id: u32) -> bool {
    store.find_one(tournaments_collection(), tournament_filter_spec(id)) is None
}

/// The first exchange of a creation: where the counter has room, it goes up
/// and the creation goes on to insert the submission under the next
/// identifier; where it has none, the creation is over as a store error and
/// nothing has changed.
pub proof fn lemma_minting_exchange(store: StoreModel, input: NewTournamentView)
    ensures
        tournament_exchange(store, new_tournament_spec(input)) == if has_room(store) {
            (counted(store), inserting(with_id_spec(input, next_id(store))))
        } else {
            (store, exhausted())
        },
{
}

/// The second exchange of a creation: the document goes into the store and
/// the creation is over with the tournament.
pub proof fn lemma_inserting_exchange(store: StoreModel, tournament: TournamentView)
    ensures
        tournament_exchange(store, inserting(tournament)) == (
            store.insert_one(tournaments_collection(), encode_tournament_spec(tournament)),
            TournamentStepView::Done(Ok(tournament)),
        ),
{
}

/// What creating a tournament comes to: where the counter has room, the
/// counter goes up and the submission is stored and returned under the next
/// identifier; where it has none, the creation fails as a store error and
/// nothing changes.
pub open spec fn create_tournament_outcome(store: StoreModel, input: NewTournamentView) -> (
    StoreModel,
    Result<TournamentView, ServiceErrorView>,
) {
    if has_room(store) {
        let tournament = with_id_spec(input, next_id(store));
        (
            counted(store).insert_one(
                tournaments_collection(),
                encode_tournament_spec(tournament),
            ),
            Ok(tournament),
        )
    } else {
        (store, Err(ServiceErrorView::Store { message: crate::store::counter_exhausted() }))
    }
}

/// What fetching a tournament comes to: what the first stored tournament
/// with the identifier decodes to, and not found where there is none. The
/// store stays as it is.
pub open spec fn fetch_tournament_outcome(store: StoreModel, id: u32) -> (
    StoreModel,
    Result<TournamentView, ServiceErrorView>,
) {
    match store.find_one(tournaments_collection(), tournament_filter_spec(id)) {
        Some(document) => (store, decode_tournament_spec(document)),
        None => (store, Err(ServiceErrorView::NotFound)),
    }
}

/// The steps of a creation, carried through, come to
/// [`create_tournament_outcome`].
pub proof fn lemma_create_tournament_run(store: StoreModel, input: NewTournamentView)
    ensures
        run_tournament(store, new_tournament_spec(input)) == create_tournament_outcome(
            store,
            input,
        ),
{
    lemma_minting_exchange(store, input);
    let (minted, second) = tournament_exchange(store, new_tournament_spec(input));
    assert(run_tournament(store, new_tournament_spec(input)) == run_tournament(minted, second));
    if has_room(store) {
        lemma_inserting_exchange(minted, with_id_spec(input, next_id(store)));
        let (written, third) = tournament_exchange(minted, second);
        assert(run_tournament(minted, second) == run_tournament(written, third));
    }
}

/// The steps of a fetch, carried through, come to
/// [`fetch_tournament_outcome`].
pub proof fn lemma_fetch_tournament_run(store: StoreModel, id: u32)
    ensures
        run_tournament(store, get_by_id_spec(id)) == fetch_tournament_outcome(store, id),
{
    let (looked, second) = tournament_exchange(store, get_by_id_spec(id));
    assert(run_tournament(store, get_by_id_spec(id)) == run_tournament(looked, second));
}

/// Whether the stored tournaments and the counter agree: the counter is not
/// negative, no two stored tournaments have the same identifier, and none
/// has an identifier that the counter has not reached yet.
pub open spec fn ids_consistent(store: StoreModel) -> bool {
    let stored = store.documents(tournaments_collection());
    &&& 0 <= last_issued(store)
    &&& forall|i: int, id: u32|
        0 <= i < stored.len() && #[trigger] document_matches(
            stored[i],
            tournament_filter_spec(id),
        ) ==> id <= last_issued(store)
    &&& forall|i: int, j: int, id: u32|
        0 <= i < j < stored.len() ==> !(#[trigger] document_matches(
            stored[i],
            tournament_filter_spec(id),
        ) && #[trigger] document_matches(stored[j], tournament_filter_spec(id)))
}

/// On a store whose tournaments and counter agree, the identifier that the
/// next creation is given is one that no stored tournament has.
pub proof fn lemma_next_id_is_unused(store: StoreModel)
    requires
        ids_consistent(store),
        has_room(store),
    ensures
        next_id(store) == last_issued(store) + 1,
        id_unused(store, next_id(store)),
{
    let stored = store.documents(tournaments_collection());
    let filter = tournament_filter_spec(next_id(store));
    lemma_first_match_found(stored, filter);
    if first_match(stored, filter) is Some {
        let found = first_match(stored, filter)->0;
        let at = choose|i: int| 0 <= i < stored.len() && stored[i] == found;
        assert(document_matches(stored[at], filter));
    }
}

/// Identifiers are unique and never used again: creating a tournament,
/// carried through with nobody else writing meanwhile, on a store whose
/// tournaments and counter agree, leaves them in agreement, whatever is
/// submitted; on a counter without room it fails and changes nothing.
pub proof fn law_create_keeps_ids_unique(store: StoreModel, input: NewTournamentView)
    requires
        ids_consistent(store),
    ensures
        ids_consistent(run_tournament(store, new_tournament_spec(input)).0),
        !has_room(store) ==> run_tournament(store, new_tournament_spec(input)).0 == store,
{
    lemma_create_tournament_run(store, input);
    if has_room(store) {
        let id = next_id(store);
        let document = encode_tournament_spec(with_id_spec(input, id));
        let after = counted(store).insert_one(tournaments_collection(), document);
        let stored = store.documents(tournaments_collection());
        let extended = after.documents(tournaments_collection());
        assert(extended == stored.push(document));
        assert(last_issued(after) == last_issued(store) + 1);
        lemma_keys_differ();
        assert forall|other: u32| #[trigger]
            document_matches(document, tournament_filter_spec(other)) implies other == id by {
            assert(tournament_filter_spec(other).contains_key(id_key()));
            assert(document[id_key()] == stored_number(other));
            law_widen_undoes_narrow(other, 0);
            law_widen_undoes_narrow(id, 0);
        }
        assert forall|i: int, other: u32|
            0 <= i < extended.len() && #[trigger] document_matches(
                extended[i],
                tournament_filter_spec(other),
            ) implies other <= last_issued(after) by {
            if i < stored.len() {
                assert(extended[i] == stored[i]);
            }
        }
        assert forall|i: int, j: int, other: u32| 0 <= i < j < extended.len() implies !(
        #[trigger] document_matches(extended[i], tournament_filter_spec(other))
            && #[trigger] document_matches(extended[j], tournament_filter_spec(other))) by {
            assert(extended[i] == stored[i]);
            if j < stored.len() {
                assert(extended[j] == stored[j]);
            }
        }
    }
}

/// Creating a tournament succeeds with the submission under the identifier
/// that follows the counter's value, whatever the team numbers, and a fetch
/// by that identifier afterwards returns the same tournament. The counter
/// stands one higher and still agrees with the stored tournaments, so the
/// next creation gets the next identifier in the same way. This holds on a
/// store whose tournaments and counter agree, while the counter has room.
pub proof fn law_created_tournament_is_found(store: StoreModel, input: NewTournamentView)
    requires
        ids_consistent(store),
        has_room(store),
    ensures
        ({
            let id = (last_issued(store) + 1) as u32;
            let tournament = with_id_spec(input, id);
            let (after, created) = run_tournament(store, new_tournament_spec(input));
            &&& created == Ok::<TournamentView, ServiceErrorView>(tournament)
            &&& after == counted(store).insert_one(
                tournaments_collection(),
                encode_tournament_spec(tournament),
            )
            &&& last_issued(after) == last_issued(store) + 1
            &&& ids_consistent(after)
            &&& run_tournament(after, get_by_id_spec(id)) == (
                after,
                Ok::<TournamentView, ServiceErrorView>(tournament),
            )
        }),
{
    let id = next_id(store);
    let tournament = with_id_spec(input, id);
    let document = encode_tournament_spec(tournament);
    let filter = tournament_filter_spec(id);
    let after = counted(store).insert_one(tournaments_collection(), document);
    lemma_create_tournament_run(store, input);
    law_create_keeps_ids_unique(store, input);
    lemma_next_id_is_unused(store);
    lemma_fetch_tournament_run(after, id);
    lemma_keys_differ();
    assert(document_matches(document, filter));
    lemma_first_match_push(store.documents(tournaments_collection()), document, filter);
    assert(after.documents(tournaments_collection()) == store.documents(
        tournaments_collection(),
    ).push(document));
    law_tournament_round_trip(tournament);
}

/// Fetching a tournament by an identifier that no stored tournament has
/// fails as not found.
pub proof fn law_absent_tournament_is_not_found(store: StoreModel, id: u32)
    requires
        id_unused(store, id),
    ensures
        run_tournament(store, get_by_id_spec(id)) == (
            store,
            Err::<TournamentView, ServiceErrorView>(ServiceErrorView::NotFound),
        ),
{
    lemma_fetch_tournament_run(store, id);
}

} // verus!
