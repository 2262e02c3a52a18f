//! The sequence generator: collision-free, increasing identifiers from a
//! named counter.
//!
//! The counter lives in the store, which adds one to it and returns the new
//! value in a single indivisible step; a counter that does not exist yet is
//! created by its first increment, which returns one. Nothing is read and
//! written back from here, so two callers can never be handed the same value.

use crate::codec::{widen, widen_spec};
use crate::document::{
    document_fields, empty_document, field_as_i32, no_fields, put_document, put_i32, put_text,
    read_i32, DecodeReason, FieldValue,
};
use crate::errors::{unexpected_reply, ServiceError, ServiceErrorView};
use crate::store::{StoreModel, StoreReply, StoreReplyView, StoreRequest, StoreRequestView};
use bson::Document;
use vstd::prelude::*;
use vstd::string::StringExecFns;

verus! {

/// Name of the collection that holds the counters.
pub open spec fn counter_collection() -> Seq<char> {
    "counter"@
}

/// The request that mints the next value of `counter`.
pub open spec fn next_request_spec(counter: Seq<char>) -> StoreRequestView {
    StoreRequestView::FindAndIncrement { collection: counter_collection(), key: counter }
}

/// Builds the request that mints the next value of the counter `counter`.
pub fn next_request(counter: &str) -> (request: StoreRequest)
    ensures
        request@ == next_request_spec(counter@),
{
    StoreRequest::FindAndIncrement {
        collection: String::from_str("counter"),
        key: String::from_str(counter),
    }
}

/// The identifier that a reply to the request issues: the counter's new
/// value, widened. A failure of the store, and a reply that is no counter
/// value, is a store error.
pub open spec fn issued_spec(reply: StoreReplyView) -> Result<u32, ServiceErrorView> {
    match reply {
        StoreReplyView::Incremented(value) => Ok(widen_spec(value)),
        StoreReplyView::Failed(message) => Err(ServiceErrorView::Store { message }),
        _ => Err(unexpected_reply()),
    }
}

/// Mathematical value of the outcome of minting an identifier.
pub open spec fn id_outcome(outcome: Result<u32, ServiceError>) -> Result<u32, ServiceErrorView> {
    match outcome {
        Ok(id) => Ok(id),
        Err(error) => Err(error@),
    }
}

/// Reads the identifier that the store's reply issues.
pub fn issued(reply: StoreReply) -> (outcome: Result<u32, ServiceError>)
    ensures
        id_outcome(outcome) == issued_spec(reply@),
{
    match reply {
        StoreReply::Incremented(value) => Ok(widen(value)),
        StoreReply::Failed(message) => Err(ServiceError::Store { message }),
        _ => Err(ServiceError::unexpected_reply()),
    }
}

/// The filter that matches the document of the counter `counter`: its `_id`
/// is the counter's name.
pub open spec fn counter_filter_spec(counter: Seq<char>) -> Map<Seq<char>, FieldValue> {
    no_fields().insert("_id"@, FieldValue::Text(counter))
}

/// Builds the filter that matches the document of the counter `counter`.
pub fn counter_filter(counter: &str) -> (filter: Document)
    ensures
        document_fields(filter) == counter_filter_spec(counter@),
{
    let mut filter = empty_document();
    put_text(&mut filter, "_id", counter);
    filter
}

/// The update that adds one to a counter document's `value`.
pub open spec fn increment_spec() -> Map<Seq<char>, FieldValue> {
    no_fields().insert(
        "$inc"@,
        FieldValue::Nested(no_fields().insert("value"@, FieldValue::Int32(1))),
    )
}

/// Builds the update that adds one to a counter document's `value`. Applied
/// as one find-and-update that creates the document where it is missing and
/// returns it as it is afterwards, it is the indivisible increment that
/// [`StoreRequest::FindAndIncrement`] asks for.
pub fn increment() -> (update: Document)
    ensures
        document_fields(update) == increment_spec(),
{
    let mut by_one = empty_document();
    put_i32(&mut by_one, "value", 1);
    let mut update = empty_document();
    put_document(&mut update, "$inc", by_one);
    update
}

/// What is said where the store returned no counter document.
pub open spec fn counter_not_created() -> Seq<char> {
    "the counter was not created"@
}

/// What is said of a counter document without a `value`.
pub open spec fn counter_without_value() -> Seq<char> {
    "the counter has no value"@
}

/// What is said of a counter document whose `value` is no 32-bit integer.
pub open spec fn counter_value_mistyped() -> Seq<char> {
    "the counter's value is not a 32-bit integer"@
}

/// The reply that a counter document returned by the increment amounts to:
/// its `value` where that is a 32-bit integer, a failure of the store
/// otherwise.
pub open spec fn incremented_spec(found: Option<Map<Seq<char>, FieldValue>>) -> StoreReplyView {
    match found {
        None => StoreReplyView::Failed(counter_not_created()),
        Some(fields) => match field_as_i32(fields, "value"@) {
            Ok(value) => StoreReplyView::Incremented(value),
            Err(DecodeReason::Missing) => StoreReplyView::Failed(counter_without_value()),
            Err(DecodeReason::Mistyped) => StoreReplyView::Failed(counter_value_mistyped()),
        },
    }
}

/// Mathematical value of what a find-and-update returned.
pub open spec fn found_view(found: Option<Document>) -> Option<Map<Seq<char>, FieldValue>> {
    match found {
        Some(document) => Some(document_fields(document)),
        None => None,
    }
}

/// Reads the reply to an increment from the counter document that the store
/// returned.
pub fn incremented(found: Option<Document>) -> (reply: StoreReply)
    ensures
        reply@ == incremented_spec(found_view(found)),
{
    match found {
        None => StoreReply::Failed(String::from_str("the counter was not created")),
        Some(document) => match read_i32(&document, "value") {
            Ok(value) => StoreReply::Incremented(value),
            Err(DecodeReason::Missing) => StoreReply::Failed(
                String::from_str("the counter has no value"),
            ),
            Err(DecodeReason::Mistyped) => StoreReply::Failed(
                String::from_str("the counter's value is not a 32-bit integer"),
            ),
        },
    }
}

/// Minting against a store that works counts up by one: from a counter that
/// stands at `n`, with room left, the identifier issued is `n + 1` and the
/// counter stands at `n + 1` afterwards. A counter never incremented stands
/// at zero, so the first identifier is one. No other counter and no document
/// is touched.
pub proof fn law_sequence_counts_up(store: StoreModel, counter: Seq<char>)
    requires
        0 <= store.counter(counter_collection(), counter) < i32::MAX,
    ensures
        ({
            let (after, reply) = store.apply(next_request_spec(counter));
            let before = store.counter(counter_collection(), counter);
            &&& issued_spec(reply) == Ok::<u32, ServiceErrorView>((before + 1) as u32)
            &&& after.counter(counter_collection(), counter) == before + 1
            &&& after.collections == store.collections
            &&& forall|collection: Seq<char>, other: Seq<char>|
                (collection, other) != (counter_collection(), counter) ==> after.counter(
                    collection,
                    other,
                ) == store.counter(collection, other)
        }),
{
}

/// Two identifiers minted one after the other from the same counter differ:
/// the second is the first plus one.
pub proof fn law_sequence_never_repeats(store: StoreModel, counter: Seq<char>)
    requires
        0 <= store.counter(counter_collection(), counter) < i32::MAX - 1,
    ensures
        ({
            let (between, first) = store.apply(next_request_spec(counter));
            let (after, second) = between.apply(next_request_spec(counter));
            &&& issued_spec(first) is Ok
            &&& issued_spec(second) is Ok
            &&& issued_spec(second)->Ok_0 == issued_spec(first)->Ok_0 + 1
        }),
{
}

} // verus!
