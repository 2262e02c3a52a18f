//! The document store as the services see it.
//!
//! The services never touch the store. They hand the caller a
//! [`StoreRequest`]; the caller performs it and hands back a [`StoreReply`].
//! [`StoreModel`] says what a store that works answers, so that what a service
//! achieves over several round-trips can be stated and proved.

use crate::document::{document_fields, FieldValue};
use bson::Document;
use vstd::prelude::*;

verus! {

/// One operation that a service asks of the store.
#[derive(Debug, PartialEq)]
pub enum StoreRequest {
    /// Find one document of `collection` that matches `filter`.
    FindOne { collection: String, filter: Document },
    /// Insert `document` into `collection`.
    InsertOne { collection: String, document: Document },
    /// Add one to the counter `key` of `collection`, creating it at one where
    /// it does not exist, and return the new value; all in one indivisible
    /// step.
    FindAndIncrement { collection: String, key: String },
}

/// Mathematical value of a [`StoreRequest`].
pub enum StoreRequestView {
    FindOne { collection: Seq<char>, filter: Map<Seq<char>, FieldValue> },
    InsertOne { collection: Seq<char>, document: Map<Seq<char>, FieldValue> },
    FindAndIncrement { collection: Seq<char>, key: Seq<char> },
}

impl View for StoreRequest {
    type V = StoreRequestView;

    open spec fn view(&self) -> StoreRequestView {
        match *self {
            StoreRequest::FindOne { collection, filter } => StoreRequestView::FindOne {
                collection: collection@,
                filter: document_fields(filter),
            },
            StoreRequest::InsertOne { collection, document } => StoreRequestView::InsertOne {
                collection: collection@,
                document: document_fields(document),
            },
            StoreRequest::FindAndIncrement { collection, key } => {
                StoreRequestView::FindAndIncrement { collection: collection@, key: key@ }
            },
        }
    }
}

/// What the store answered.
#[derive(Debug, PartialEq)]
pub enum StoreReply {
    /// The answer to `FindOne`: the document found, if any.
    Found(Option<Document>),
    /// The answer to `InsertOne`: the document is stored.
    Inserted,
    /// The answer to `FindAndIncrement`: the counter's new value.
    Incremented(i32),
    /// The store could not be reached, timed out or failed the operation.
    Failed(String),
}

/// Mathematical value of a [`StoreReply`].
pub enum StoreReplyView {
    Found(Option<Map<Seq<char>, FieldValue>>),
    Inserted,
    Incremented(i32),
    Failed(Seq<char>),
}

impl View for StoreReply {
    type V = StoreReplyView;

    open spec fn view(&self) -> StoreReplyView {
        match *self {
            StoreReply::Found(Some(document)) => StoreReplyView::Found(
                Some(document_fields(document)),
            ),
            StoreReply::Found(None) => StoreReplyView::Found(None),
            StoreReply::Inserted => StoreReplyView::Inserted,
            StoreReply::Incremented(value) => StoreReplyView::Incremented(value),
            StoreReply::Failed(message) => StoreReplyView::Failed(message@),
        }
    }
}

/// Whether `document` matches `filter`: it holds every field of the filter,
/// with an equal value.
pub open spec fn document_matches(
    document: Map<Seq<char>, FieldValue>,
    filter: Map<Seq<char>, FieldValue>,
) -> bool {
    forall|key: Seq<char>| #[trigger]
        filter.contains_key(key) ==> document.contains_key(key) && document[key] == filter[key]
}

/// The first of `documents` that matches `filter`, if any does.
pub open spec fn first_match(
    documents: Seq<Map<Seq<char>, FieldValue>>,
    filter: Map<Seq<char>, FieldValue>,
) -> Option<Map<Seq<char>, FieldValue>>
    decreases documents.len(),
{
    if documents.len() == 0 {
        None
    } else if document_matches(documents.first(), filter) {
        Some(documents.first())
    } else {
        first_match(documents.drop_first(), filter)
    }
}

/// The state of a store: the documents of each collection in the order of
/// their insertion, and the value of each counter.
pub struct StoreModel {
    pub collections: Map<Seq<char>, Seq<Map<Seq<char>, FieldValue>>>,
    pub counters: Map<(Seq<char>, Seq<char>), int>,
}

impl StoreModel {
    /// The documents of `collection`; none where it was never written.
    pub open spec fn documents(self, collection: Seq<char>) -> Seq<Map<Seq<char>, FieldValue>> {
        if self.collections.contains_key(collection) {
            self.collections[collection]
        } else {
            Seq::empty()
        }
    }

    /// The value of the counter `key` of `collection`; zero where it was
    /// never incremented.
    pub open spec fn counter(self, collection: Seq<char>, key: Seq<char>) -> int {
        if self.counters.contains_key((collection, key)) {
            self.counters[(collection, key)]
        } else {
            0
        }
    }

    /// The answer to a lookup.
    pub open spec fn find_one(
        self,
        collection: Seq<char>,
        filter: Map<Seq<char>, FieldValue>,
    ) -> Option<Map<Seq<char>, FieldValue>> {
        first_match(self.documents(collection), filter)
    }

    /// The store after `document` went into `collection`.
    pub open spec fn insert_one(
        self,
        collection: Seq<char>,
        document: Map<Seq<char>, FieldValue>,
    ) -> StoreModel {
        StoreModel {
            collections: self.collections.insert(
                collection,
                self.documents(collection).push(document),
            ),
            counters: self.counters,
        }
    }

    /// The store after the counter `key` of `collection` went up by one.
    pub open spec fn increment(self, collection: Seq<char>, key: Seq<char>) -> StoreModel {
        StoreModel {
            collections: self.collections,
            counters: self.counters.insert((collection, key), self.counter(collection, key) + 1),
        }
    }

    /// What a store that works does with `request`: its next state and its
    /// answer. A counter that has reached `i32::MAX` cannot go further; the
    /// request fails and changes nothing.
    pub open spec fn apply(self, request: StoreRequestView) -> (StoreModel, StoreReplyView) {
        match request {
            StoreRequestView::FindOne { collection, filter } => (
                self,
                StoreReplyView::Found(self.find_one(collection, filter)),
            ),
            StoreRequestView::InsertOne { collection, document } => (
                self.insert_one(collection, document),
                StoreReplyView::Inserted,
            ),
            StoreRequestView::FindAndIncrement { collection, key } => {
                let value = self.counter(collection, key) + 1;
                if i32::MIN <= value <= i32::MAX {
                    (self.increment(collection, key), StoreReplyView::Incremented(value as i32))
                } else {
                    (self, StoreReplyView::Failed(counter_exhausted()))
                }
            },
        }
    }
}

/// What a store says of a counter that cannot go further.
pub open spec fn counter_exhausted() -> Seq<char> {
    "counter exhausted"@
}

/// A document that matches is found among documents of which none matched
/// before it was appended; an earlier match stays the answer.
pub proof fn lemma_first_match_push(
    documents: Seq<Map<Seq<char>, FieldValue>>,
    document: Map<Seq<char>, FieldValue>,
    filter: Map<Seq<char>, FieldValue>,
)
    ensures
        first_match(documents.push(document), filter) == match first_match(documents, filter) {
            Some(found) => Some(found),
            None => if document_matches(document, filter) {
                Some(document)
            } else {
                None
            },
        },
    decreases documents.len(),
{
    let extended = documents.push(document);
    if documents.len() == 0 {
        assert(extended.first() == document);
        assert(extended.drop_first() =~= documents);
    } else {
        assert(extended.first() == documents.first());
        assert(extended.drop_first() =~= documents.drop_first().push(document));
        lemma_first_match_push(documents.drop_first(), document, filter);
    }
}

/// A lookup finds nothing exactly where no document matches; what it finds
/// is one of the documents, and matches.
pub proof fn lemma_first_match_found(
    documents: Seq<Map<Seq<char>, FieldValue>>,
    filter: Map<Seq<char>, FieldValue>,
)
    ensures
        first_match(documents, filter) is None <==> forall|i: int|
            0 <= i < documents.len() ==> !document_matches(#[trigger] documents[i], filter),
        first_match(documents, filter) matches Some(found) ==> document_matches(found, filter)
            && documents.contains(found),
    decreases documents.len(),
{
    if documents.len() > 0 {
        let rest = documents.drop_first();
        lemma_first_match_found(rest, filter);
        if document_matches(documents.first(), filter) {
            assert(documents[0] == documents.first());
        } else {
            if first_match(rest, filter) is None {
                assert forall|i: int| 0 <= i < documents.len() implies !document_matches(
                    #[trigger] documents[i],
                    filter,
                ) by {
                    if i > 0 {
                        assert(documents[i] == rest[i - 1]);
                    }
                }
            } else {
                let found = first_match(rest, filter)->0;
                let at = choose|i: int| 0 <= i < rest.len() && rest[i] == found;
                assert(documents[at + 1] == found);
            }
        }
    }
}

} // verus!
