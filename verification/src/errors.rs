//! Why a service operation failed, and how a failure is reported.

use crate::document::DecodeReason;
use vstd::prelude::*;
use vstd::string::StringExecFns;

verus! {

/// A failed service operation.
#[derive(Debug, PartialEq, Eq)]
#[allow(inconsistent_fields)]
pub enum ServiceError {
    /// The caller's input is malformed; the same input will fail again.
    Validation { field: String, reason: String },
    /// A team with this number is already stored.
    Duplicate { number: u32 },
    /// No stored record matches the key.
    NotFound,
    /// A stored document does not have the expected shape: a sign of
    /// corrupt data or of a changed schema.
    StorageDecode { field: String, reason: DecodeReason },
    /// The store could not be reached or failed the operation.
    Store { message: String },
}

/// Mathematical value of a [`ServiceError`].
#[allow(inconsistent_fields)]
pub enum ServiceErrorView {
    Validation { field: Seq<char>, reason: Seq<char> },
    Duplicate { number: u32 },
    NotFound,
    StorageDecode { field: Seq<char>, reason: DecodeReason },
    Store { message: Seq<char> },
}

impl View for ServiceError {
    type V = ServiceErrorView;

    open spec fn view(&self) -> ServiceErrorView {
        match *self {
            ServiceError::Validation { field, reason } => ServiceErrorView::Validation {
                field: field@,
                reason: reason@,
            },
            ServiceError::Duplicate { number } => ServiceErrorView::Duplicate { number },
            ServiceError::NotFound => ServiceErrorView::NotFound,
            ServiceError::StorageDecode { field, reason } => ServiceErrorView::StorageDecode {
                field: field@,
                reason,
            },
            ServiceError::Store { message } => ServiceErrorView::Store { message: message@ },
        }
    }
}

/// The HTTP status that reports `error`: 400 for what the caller got wrong,
/// 404 for a record that is not there, 500 for what went wrong in or behind
/// the store.
pub open spec fn status_of(error: ServiceErrorView) -> u16 {
    match error {
        ServiceErrorView::Validation { .. } => 400,
        ServiceErrorView::Duplicate { .. } => 400,
        ServiceErrorView::NotFound => 404,
        ServiceErrorView::StorageDecode { .. } => 500,
        ServiceErrorView::Store { .. } => 500,
    }
}

/// The words for a [`DecodeReason`].
pub open spec fn reason_text(reason: DecodeReason) -> Seq<char> {
    match reason {
        DecodeReason::Missing => "field is not present"@,
        DecodeReason::Mistyped => "field does not have the expected type"@,
    }
}

/// The plain-text body that reports `error`.
pub open spec fn message_of(error: ServiceErrorView) -> Seq<char> {
    match error {
        ServiceErrorView::Validation { field, reason } => "Invalid "@ + field + ": "@ + reason,
        ServiceErrorView::Duplicate { .. } => "This team already exists"@,
        ServiceErrorView::NotFound => "No record found"@,
        ServiceErrorView::StorageDecode { field, reason } => field + " BSON: "@ + reason_text(
            reason,
        ),
        ServiceErrorView::Store { message } => "MongoDB: "@ + message,
    }
}

/// What is said of a reply that does not answer the request made.
pub open spec fn unexpected_reply() -> ServiceErrorView {
    ServiceErrorView::Store { message: "unexpected reply from the store"@ }
}

impl ServiceError {
    /// The error for a reply that does not answer the request made.
    pub fn unexpected_reply() -> (error: ServiceError)
        ensures
            error@ == unexpected_reply(),
    {
        ServiceError::Store { message: String::from_str("unexpected reply from the store") }
    }

    /// The HTTP status that reports this error.
    pub fn status(&self) -> (code: u16)
        ensures
            code == status_of(self@),
    {
        match self {
            ServiceError::Validation { .. } => 400,
            ServiceError::Duplicate { .. } => 400,
            ServiceError::NotFound => 404,
            ServiceError::StorageDecode { .. } => 500,
            ServiceError::Store { .. } => 500,
        }
    }

    /// The plain-text body that reports this error.
    pub fn message(&self) -> (text: String)
        ensures
            text@ == message_of(self@),
    {
        match self {
            ServiceError::Validation { field, reason } => {
                let mut text = String::from_str("Invalid ");
                text.append(field.as_str());
                text.append(": ");
                text.append(reason.as_str());
                text
            },
            ServiceError::Duplicate { .. } => String::from_str("This team already exists"),
            ServiceError::NotFound => String::from_str("No record found"),
            ServiceError::StorageDecode { field, reason } => {
                let mut text = field.clone();
                text.append(" BSON: ");
                match reason {
                    DecodeReason::Missing => text.append("field is not present"),
                    DecodeReason::Mistyped => text.append("field does not have the expected type"),
                }
                text
            },
            ServiceError::Store { message } => {
                let mut text = String::from_str("MongoDB: ");
                text.append(message.as_str());
                text
            },
        }
    }
}

impl Clone for ServiceError {
    fn clone(&self) -> (copy: Self)
        ensures
            copy@ == self@,
    {
        match self {
            ServiceError::Validation { field, reason } => ServiceError::Validation {
                field: field.clone(),
                reason: reason.clone(),
            },
            ServiceError::Duplicate { number } => ServiceError::Duplicate { number: *number },
            ServiceError::NotFound => ServiceError::NotFound,
            ServiceError::StorageDecode { field, reason } => ServiceError::StorageDecode {
                field: field.clone(),
                reason: *reason,
            },
            ServiceError::Store { message } => ServiceError::Store { message: message.clone() },
        }
    }
}

/// The HTTP status that reports the outcome of an operation: 200 for a
/// record, the error's status otherwise.
pub fn response_status<T>(outcome: &Result<T, ServiceError>) -> (code: u16)
    ensures
        code == match *outcome {
            Ok(_) => 200u16,
            Err(error) => status_of(error@),
        },
{
    match outcome {
        Ok(_) => 200,
        Err(error) => error.status(),
    }
}

} // verus!
