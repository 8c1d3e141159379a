//! Idempotency records and the decision taken when a key is already held.

use vstd::prelude::*;
use crate::intent::{IntentView, PaymentIntentResponse};

verus! {

/// The endpoint whose requests the records of this core deduplicate.
pub open spec fn create_endpoint() -> Seq<char> {
    "POST /v1/payment_intents"@
}

/// The endpoint whose requests the records of this core deduplicate.
pub fn create_endpoint_name() -> (r: &'static str)
    ensures
        r@ == create_endpoint(),
{
    "POST /v1/payment_intents"
}

/// The mathematical value of an idempotency record.
pub struct RecordView {
    pub key: Seq<char>,
    pub endpoint: Seq<char>,
    pub request_hash: Seq<char>,
    pub response_body: Option<IntentView>,
    pub payment_intent_id: Option<u128>,
}

/// An idempotency record, identified by its key and endpoint. An absent
/// `response_body` stands for the empty placeholder written at reservation.
#[derive(Debug)]
pub struct IdempotencyRecord {
    pub key: String,
    pub endpoint: String,
    pub request_hash: String,
    pub response_body: Option<PaymentIntentResponse>,
    pub payment_intent_id: Option<u128>,
}

/// The value of an optional stored response.
pub open spec fn body_view(b: Option<PaymentIntentResponse>) -> Option<IntentView> {
    match b {
        Some(r) => Some(r@),
        None => None,
    }
}

impl View for IdempotencyRecord {
    type V = RecordView;

    open spec fn view(&self) -> RecordView {
        RecordView {
            key: self.key@,
            endpoint: self.endpoint@,
            request_hash: self.request_hash@,
            response_body: body_view(self.response_body),
            payment_intent_id: self.payment_intent_id,
        }
    }
}

/// What to do with a create request whose key is already held.
#[derive(Clone, Copy, Debug, PartialEq, Eq, Structural)]
pub enum Resolution {
    /// The key was used with a different request: refuse it.
    Conflict,
    /// Return the stored response as it is.
    Replay,
    /// The response was never stored: rebuild it from this intent and store it.
    Reconstruct(u128),
    /// Neither a response nor an intent was stored: nothing can be recovered.
    Inconsistent,
}

/// The decision for a request with fingerprint `req_hash` whose key is held
/// by `rec`.
pub open spec fn resolve(rec: RecordView, req_hash: Seq<char>) -> Resolution {
    if rec.request_hash != req_hash {
        Resolution::Conflict
    } else if rec.response_body is Some {
        Resolution::Replay
    } else if rec.payment_intent_id is Some {
        Resolution::Reconstruct(rec.payment_intent_id.unwrap())
    } else {
        Resolution::Inconsistent
    }
}

/// Decides what a create request with fingerprint `req_hash` gets when its
/// key is already held by `rec`.
pub fn resolve_existing_record(rec: &IdempotencyRecord, req_hash: &String) -> (r: Resolution)
    ensures
        r == resolve(rec@, req_hash@),
{
    if !(rec.request_hash == *req_hash) {
        Resolution::Conflict
    } else if rec.response_body.is_some() {
        Resolution::Replay
    } else {
        match rec.payment_intent_id {
            Some(id) => Resolution::Reconstruct(id),
            None => Resolution::Inconsistent,
        }
    }
}

} // verus!
