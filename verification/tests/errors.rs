use tournament_management::document::DecodeReason;
use tournament_management::errors::{response_status, ServiceError};
use tournament_management::models::Team;

fn validation() -> ServiceError {
    ServiceError::Validation { field: "number".to_string(), reason: "not an integer".to_string() }
}

#[test]
fn caller_mistakes_are_reported_as_400() {
    assert_eq!(validation().status(), 400);
    assert_eq!(ServiceError::Duplicate { number: 118 }.status(), 400);
}

#[test]
fn a_missing_record_is_reported_as_404() {
    assert_eq!(ServiceError::NotFound.status(), 404);
}

#[test]
fn store_side_failures_are_reported_as_500() {
    let corrupt =
        ServiceError::StorageDecode { field: "name".to_string(), reason: DecodeReason::Missing };
    assert_eq!(corrupt.status(), 500);
    assert_eq!(ServiceError::Store { message: "timed out".to_string() }.status(), 500);
    assert_eq!(ServiceError::unexpected_reply().status(), 500);
}

#[test]
fn success_is_reported_as_200() {
    let team = Team { number: 118, name: String::new(), affiliation: String::new() };
    assert_eq!(response_status(&Ok(team)), 200);
    assert_eq!(response_status::<Team>(&Err(ServiceError::NotFound)), 404);
    assert_eq!(response_status::<Team>(&Err(validation())), 400);
    assert_eq!(response_status::<u32>(&Err(ServiceError::unexpected_reply())), 500);
}

#[test]
fn messages_name_the_cause() {
    assert_eq!(validation().message(), "Invalid number: not an integer");
    assert_eq!(ServiceError::Duplicate { number: 118 }.message(), "This team already exists");
    assert_eq!(ServiceError::NotFound.message(), "No record found");
    assert_eq!(
        ServiceError::StorageDecode { field: "name".to_string(), reason: DecodeReason::Missing }
            .message(),
        "name BSON: field is not present"
    );
    assert_eq!(
        ServiceError::StorageDecode {
            field: "number".to_string(),
            reason: DecodeReason::Mistyped
        }
        .message(),
        "number BSON: field does not have the expected type"
    );
    assert_eq!(
        ServiceError::Store { message: "connection refused".to_string() }.message(),
        "MongoDB: connection refused"
    );
    assert_eq!(
        ServiceError::unexpected_reply().message(),
        "MongoDB: unexpected reply from the store"
    );
}

#[test]
fn messages_keep_empty_parts() {
    assert_eq!(
        ServiceError::Validation { field: String::new(), reason: String::new() }.message(),
        "Invalid : "
    );
    assert_eq!(ServiceError::Store { message: String::new() }.message(), "MongoDB: ");
}

#[test]
fn a_copy_of_an_error_equals_it() {
    let errors = [
        validation(),
        ServiceError::Duplicate { number: 7 },
        ServiceError::NotFound,
        ServiceError::StorageDecode { field: "teams".to_string(), reason: DecodeReason::Mistyped },
        ServiceError::Store { message: "down".to_string() },
    ];
    for error in errors.iter() {
        assert_eq!(&error.clone(), error);
    }
}
