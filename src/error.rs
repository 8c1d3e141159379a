//! The errors that a request can end in, each with its transport status.

use vstd::prelude::*;
use crate::intent::{status_text, validation_message, IntentStatus, ValidationError};

verus! {

/// How a request fails. A failed request leaves stored state unchanged.
#[derive(Clone, Copy, Debug, PartialEq, Eq, Structural)]
pub enum ApiError {
    /// The request body breaks a validation rule.
    BadRequest(ValidationError),
    /// The idempotency key was used before with a different request.
    IdempotencyConflict,
    /// The intent is not in a state that allows confirmation.
    InvalidState(IntentStatus),
    /// No intent has the identifier.
    NotFound,
    /// A freshly drawn identifier is already in use.
    DuplicateId,
    /// An idempotency record refers to an intent that does not exist.
    DanglingReference,
    /// An idempotency record has neither a stored response nor an intent.
    InconsistentRecord,
}

/// The transport status of an error.
pub open spec fn error_status(e: ApiError) -> u16 {
    match e {
        ApiError::BadRequest(_) => 400,
        ApiError::IdempotencyConflict => 409,
        ApiError::InvalidState(_) => 409,
        ApiError::NotFound => 404,
        ApiError::DuplicateId => 500,
        ApiError::DanglingReference => 500,
        ApiError::InconsistentRecord => 500,
    }
}

/// The client-facing message of an error.
pub open spec fn error_message(e: ApiError) -> Seq<char> {
    match e {
        ApiError::BadRequest(v) => validation_message(v),
        ApiError::IdempotencyConflict => "idempotency key reused with different request"@,
        ApiError::InvalidState(s) => "cannot confirm payment_intent in status '"@ + status_text(s) + "'"@,
        ApiError::NotFound => "payment_intent not found"@,
        ApiError::DuplicateId => "db error: identifier already in use"@,
        ApiError::DanglingReference => "db error: referenced payment_intent is missing"@,
        ApiError::InconsistentRecord =>
            "idempotency record exists but has no stored response or payment_intent_id"@,
    }
}

impl ApiError {
    /// The transport status of this error.
    pub fn status_code(&self) -> (r: u16)
        ensures
            r == error_status(*self),
    {
        match self {
            ApiError::BadRequest(_) => 400,
            ApiError::IdempotencyConflict => 409,
            ApiError::InvalidState(_) => 409,
            ApiError::NotFound => 404,
            ApiError::DuplicateId => 500,
            ApiError::DanglingReference => 500,
            ApiError::InconsistentRecord => 500,
        }
    }

    /// The client-facing message of this error.
    pub fn message(&self) -> (r: String)
        ensures
            r@ == error_message(*self),
    {
        match self {
            ApiError::BadRequest(v) => String::from_str(v.message()),
            ApiError::IdempotencyConflict => String::from_str("idempotency key reused with different request"),
            ApiError::InvalidState(s) => {
                let mut m = String::from_str("cannot confirm payment_intent in status '");
                m.append(s.as_str());
                m.append("'");
                m
            },
            ApiError::NotFound => String::from_str("payment_intent not found"),
            ApiError::DuplicateId => String::from_str("db error: identifier already in use"),
            ApiError::DanglingReference => String::from_str("db error: referenced payment_intent is missing"),
            ApiError::InconsistentRecord => String::from_str(
                "idempotency record exists but has no stored response or payment_intent_id",
            ),
        }
    }
}

/// The error of a confirmation whose compare-and-set changed nothing, given
/// the status that a follow-up read found, if any.
pub fn confirm_miss_error(current: Option<IntentStatus>) -> (r: ApiError)
    ensures
        r == (match current {
            None => ApiError::NotFound,
            Some(s) => ApiError::InvalidState(s),
        }),
{
    match current {
        None => ApiError::NotFound,
        Some(s) => ApiError::InvalidState(s),
    }
}

} // verus!
