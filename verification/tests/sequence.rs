use tournament_management::errors::ServiceError;
use bson::{Bson, Document};
use tournament_management::sequence::{
    counter_filter, increment, incremented, issued, next_request,
};
use tournament_management::store::{StoreReply, StoreRequest};

#[test]
fn the_next_value_is_asked_of_the_counter_collection() {
    assert_eq!(
        next_request("tournaments"),
        StoreRequest::FindAndIncrement {
            collection: "counter".to_string(),
            key: "tournaments".to_string()
        }
    );
    assert_eq!(
        next_request(""),
        StoreRequest::FindAndIncrement { collection: "counter".to_string(), key: String::new() }
    );
}

#[test]
fn the_new_counter_value_is_the_identifier() {
    assert_eq!(issued(StoreReply::Incremented(1)), Ok(1));
    assert_eq!(issued(StoreReply::Incremented(2)), Ok(2));
    assert_eq!(issued(StoreReply::Incremented(i32::MAX)), Ok(2147483647));
    assert_eq!(issued(StoreReply::Incremented(0)), Ok(0));
    assert_eq!(issued(StoreReply::Incremented(-2)), Ok(4294967294));
}

#[test]
fn a_failed_increment_is_a_store_error() {
    assert_eq!(
        issued(StoreReply::Failed("no primary".to_string())),
        Err(ServiceError::Store { message: "no primary".to_string() })
    );
}

#[test]
fn a_reply_that_is_no_counter_value_is_a_store_error() {
    assert_eq!(issued(StoreReply::Inserted), Err(ServiceError::unexpected_reply()));
    assert_eq!(issued(StoreReply::Found(None)), Err(ServiceError::unexpected_reply()));
}

#[test]
fn the_counter_document_is_found_by_its_name() {
    let mut expected = Document::new();
    expected.insert("_id", "tournaments");
    assert_eq!(counter_filter("tournaments"), expected);
    assert_eq!(counter_filter("tournaments").len(), 1);
}

#[test]
fn the_increment_adds_one_to_the_value() {
    let mut by_one = Document::new();
    by_one.insert("value", Bson::Int32(1));
    let mut expected = Document::new();
    expected.insert("$inc", Bson::Document(by_one));
    assert_eq!(increment(), expected);
}

#[test]
fn the_returned_counter_document_gives_the_reply() {
    let mut counter = Document::new();
    counter.insert("_id", "tournaments");
    counter.insert("value", Bson::Int32(5));
    assert_eq!(
        incremented(Some(counter)),
        StoreReply::Incremented(5)
    );
}

#[test]
fn a_counter_document_that_cannot_be_read_is_a_failure() {
    assert_eq!(incremented(None), StoreReply::Failed("the counter was not created".to_string()));
    let mut counter = Document::new();
    counter.insert("_id", "tournaments");
    assert_eq!(
        incremented(Some(counter.clone())),
        StoreReply::Failed("the counter has no value".to_string())
    );
    counter.insert("value", Bson::Int64(5));
    assert_eq!(
        incremented(Some(counter)),
        StoreReply::Failed("the counter's value is not a 32-bit integer".to_string())
    );
}
