//! Creations of tournaments that run side by side.
//!
//! Several creations share one store. Each takes two exchanges with it,
//! minting its identifier and inserting its document, and the exchanges of
//! different creations may come in any order. What keeps their identifiers
//! apart is that the store performs the increment in one indivisible step;
//! this module states the interleavings and proves that none makes two
//! identifiers equal.

use crate::codec::{law_widen_undoes_narrow, narrow_spec, with_id_spec};
use crate::models::NewTournamentView;
use crate::store::StoreModel;
use crate::tournament::{
    exhausted, has_room, inserting, last_issued, lemma_inserting_exchange,
    lemma_minting_exchange, new_tournament_spec, next_id, tournament_exchange,
    TournamentPendingView, TournamentStepView,
};
use vstd::prelude::*;

verus! {

/// One exchange of the operation `who` among operations that run side by
/// side on one store. An operation that is over, or an index that names
/// none, changes nothing.
pub open spec fn advance(store: StoreModel, operations: Seq<TournamentStepView>, who: int) -> (
    StoreModel,
    Seq<TournamentStepView>,
) {
    if 0 <= who < operations.len() {
        let (next_store, next) = tournament_exchange(store, operations[who]);
        (next_store, operations.update(who, next))
    } else {
        (store, operations)
    }
}

/// Operations run side by side on one store, their exchanges taken in the
/// order that `schedule` gives: the store and the operations at its end.
pub open spec fn interleave(
    store: StoreModel,
    operations: Seq<TournamentStepView>,
    schedule: Seq<int>,
) -> (StoreModel, Seq<TournamentStepView>)
    decreases schedule.len(),
{
    if schedule.len() == 0 {
        (store, operations)
    } else {
        let (earlier_store, earlier) = interleave(store, operations, schedule.drop_last());
        advance(earlier_store, earlier, schedule.last())
    }
}

/// One creation started for each of `inputs`.
pub open spec fn started(inputs: Seq<NewTournamentView>) -> Seq<TournamentStepView> {
    inputs.map_values(|input: NewTournamentView| new_tournament_spec(input))
}

/// The identifier that a creation holds, once it has been given one.
pub open spec fn assigned_id(step: TournamentStepView) -> Option<u32> {
    match step {
        TournamentStepView::Ask(_, TournamentPendingView::Insert(tournament)) => Some(
            tournament.id,
        ),
        TournamentStepView::Done(Ok(tournament)) => Some(tournament.id),
        _ => None,
    }
}

/// Whether no two of the operations hold the same identifier.
pub open spec fn ids_differ(operations: Seq<TournamentStepView>) -> bool {
    forall|i: int, j: int|
        0 <= i < j < operations.len() && (#[trigger] assigned_id(operations[i])) is Some && (
        #[trigger] assigned_id(operations[j])) is Some ==> assigned_id(operations[i])
            != assigned_id(operations[j])
}

/// Whether every one of the operations is over and has succeeded.
pub open spec fn all_succeeded(operations: Seq<TournamentStepView>) -> bool {
    forall|i: int|
        0 <= i < operations.len() ==> (#[trigger] operations[i]) matches TournamentStepView::Done(
            Ok(_),
        )
}

/// The identifiers that the operations hold, in the order of the operations;
/// meaningful where each of them holds one.
pub open spec fn held_ids(operations: Seq<TournamentStepView>) -> Seq<u32> {
    operations.map_values(|step: TournamentStepView| assigned_id(step).unwrap())
}

/// Where a creation started from `input` can stand while the counter went
/// from `start` to `reached`: at its first step; over because the counter was
/// exhausted; or past its first step, waiting for its insert or done, with
/// its input under an identifier that stands for a counter value from that
/// span.
pub open spec fn creation_stands(
    input: NewTournamentView,
    step: TournamentStepView,
    start: int,
    reached: int,
) -> bool {
    match assigned_id(step) {
        None => step == new_tournament_spec(input) || step == exhausted(),
        Some(id) => {
            &&& start < narrow_spec(id) <= reached
            &&& step == inserting(with_id_spec(input, id)) || step == TournamentStepView::Done(
                Ok(with_id_spec(input, id)),
            )
        },
    }
}

/// What holds of creations that run side by side, whatever the schedule.
pub open spec fn creations_consistent(
    inputs: Seq<NewTournamentView>,
    start: int,
    store: StoreModel,
    operations: Seq<TournamentStepView>,
) -> bool {
    &&& operations.len() == inputs.len()
    &&& start <= last_issued(store)
    &&& forall|i: int|
        0 <= i < operations.len() ==> creation_stands(
            inputs[i],
            #[trigger] operations[i],
            start,
            last_issued(store),
        )
    &&& ids_differ(operations)
}

proof fn lemma_advance_keeps_consistent(
    inputs: Seq<NewTournamentView>,
    start: int,
    store: StoreModel,
    operations: Seq<TournamentStepView>,
    who: int,
)
    requires
        creations_consistent(inputs, start, store, operations),
    ensures
        creations_consistent(
            inputs,
            start,
            advance(store, operations, who).0,
            advance(store, operations, who).1,
        ),
{
    if 0 <= who < operations.len() {
        let step = operations[who];
        let reached = last_issued(store);
        let (next_store, next) = advance(store, operations, who);
        assert(creation_stands(inputs[who], step, start, reached));
        assert forall|i: int| 0 <= i < operations.len() && i != who implies next[i]
            == operations[i] && creation_stands(inputs[i], operations[i], start, reached) by {}
        if step == new_tournament_spec(inputs[who]) {
            lemma_minting_exchange(store, inputs[who]);
            if has_room(store) {
                law_widen_undoes_narrow(0, (reached + 1) as i32);
                assert(narrow_spec(next_id(store)) == reached + 1);
                assert(last_issued(next_store) == reached + 1);
                assert(assigned_id(next[who]) == Some(next_id(store)));
            }
        } else if assigned_id(step) is Some && step is Ask {
            lemma_inserting_exchange(store, with_id_spec(inputs[who], assigned_id(step)->0));
            assert(last_issued(next_store) == reached);
            assert(assigned_id(next[who]) == assigned_id(step));
        } else {
            assert(next =~= operations);
        }
        assert forall|i: int| 0 <= i < next.len() implies creation_stands(
            inputs[i],
            #[trigger] next[i],
            start,
            last_issued(next_store),
        ) by {
            if i != who {
                assert(next[i] == operations[i]);
            }
        }
        assert forall|i: int, j: int|
            0 <= i < j < next.len() && (#[trigger] assigned_id(next[i])) is Some && (
            #[trigger] assigned_id(next[j])) is Some implies assigned_id(next[i]) != assigned_id(
            next[j],
        ) by {
            if i != who {
                assert(next[i] == operations[i]);
            }
            if j != who {
                assert(next[j] == operations[j]);
            }
        }
    }
}

proof fn lemma_interleave_keeps_consistent(
    inputs: Seq<NewTournamentView>,
    start: int,
    store: StoreModel,
    operations: Seq<TournamentStepView>,
    schedule: Seq<int>,
)
    requires
        creations_consistent(inputs, start, store, operations),
    ensures
        creations_consistent(
            inputs,
            start,
            interleave(store, operations, schedule).0,
            interleave(store, operations, schedule).1,
        ),
    decreases schedule.len(),
{
    if schedule.len() > 0 {
        lemma_interleave_keeps_consistent(inputs, start, store, operations, schedule.drop_last());
        let (earlier_store, earlier) = interleave(store, operations, schedule.drop_last());
        lemma_advance_keeps_consistent(inputs, start, earlier_store, earlier, schedule.last());
    }
}

/// Creations that run side by side never share an identifier. Start one
/// creation for each of `inputs` on any store, and let their exchanges
/// interleave in any order. At every moment no two of them hold the same
/// identifier, and each stands where a creation can: at its first step, over
/// because the counter was exhausted, or holding its input under an
/// identifier that was issued after the counter's value at the start. Where
/// all have succeeded, the identifiers assigned are as many different values
/// as there were creations.
pub proof fn law_concurrent_ids_differ(
    store: StoreModel,
    inputs: Seq<NewTournamentView>,
    schedule: Seq<int>,
)
    ensures
        ({
            let (after, operations) = interleave(store, started(inputs), schedule);
            &&& operations.len() == inputs.len()
            &&& ids_differ(operations)
            &&& forall|i: int|
                0 <= i < operations.len() ==> creation_stands(
                    inputs[i],
                    #[trigger] operations[i],
                    last_issued(store),
                    last_issued(after),
                )
            &&& all_succeeded(operations) ==> held_ids(operations).no_duplicates() && held_ids(
                operations,
            ).to_set().len() == inputs.len()
        }),
{
    let start = last_issued(store);
    assert(creations_consistent(inputs, start, store, started(inputs)));
    lemma_interleave_keeps_consistent(inputs, start, store, started(inputs), schedule);
    let (after, operations) = interleave(store, started(inputs), schedule);
    if all_succeeded(operations) {
        let ids = held_ids(operations);
        assert forall|i: int, j: int|
            0 <= i < ids.len() && 0 <= j < ids.len() && i != j implies ids[i] != ids[j] by {
            assert(operations[i] is Done && operations[j] is Done);
            assert(assigned_id(operations[i]) is Some && assigned_id(operations[j]) is Some);
            if i < j {
                assert(assigned_id(operations[i]) != assigned_id(operations[j]));
            } else {
                assert(assigned_id(operations[j]) != assigned_id(operations[i]));
            }
        }
        ids.unique_seq_to_set();
    }
}

} // verus!
