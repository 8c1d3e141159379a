//! Payment intents: their two states, the create request, its validation
//! and its fingerprint.

use vstd::prelude::*;
use crate::text::{decimal, decimal_text, is_blank, lower_of, to_lowercase, trim, trimmed};

verus! {

/// The lifecycle state of a payment intent. The only transition is
/// `RequiresConfirmation` to `Succeeded`.
#[derive(Clone, Copy, Debug, PartialEq, Eq, Structural)]
pub enum IntentStatus {
    RequiresConfirmation,
    Succeeded,
}

/// The wire name of a status.
pub open spec fn status_text(s: IntentStatus) -> Seq<char> {
    match s {
        IntentStatus::RequiresConfirmation => "requires_confirmation"@,
        IntentStatus::Succeeded => "succeeded"@,
    }
}

impl IntentStatus {
    /// The wire name of this status.
    pub fn as_str(&self) -> (r: &'static str)
        ensures
            r@ == status_text(*self),
    {
        match self {
            IntentStatus::RequiresConfirmation => "requires_confirmation",
            IntentStatus::Succeeded => "succeeded",
        }
    }

    /// The status with wire name `s`, if any.
    pub fn from_text(s: &String) -> (r: Option<IntentStatus>)
        ensures
            r is Some <==> (s@ == status_text(IntentStatus::RequiresConfirmation) || s@ == status_text(
                IntentStatus::Succeeded,
            )),
            r is Some ==> status_text(r->0) == s@,
    {
        if *s == String::from_str(IntentStatus::RequiresConfirmation.as_str()) {
            Some(IntentStatus::RequiresConfirmation)
        } else if *s == String::from_str(IntentStatus::Succeeded.as_str()) {
            Some(IntentStatus::Succeeded)
        } else {
            None
        }
    }
}

/// The mathematical value of a payment intent.
pub struct IntentView {
    pub id: u128,
    pub amount: i64,
    pub currency: Seq<char>,
    pub status: IntentStatus,
}

/// A payment intent as stored and as returned to the client.
#[derive(Debug)]
pub struct PaymentIntentResponse {
    pub id: u128,
    pub amount: i64,
    pub currency: String,
    pub status: IntentStatus,
}

impl View for PaymentIntentResponse {
    type V = IntentView;

    open spec fn view(&self) -> IntentView {
        IntentView { id: self.id, amount: self.amount, currency: self.currency@, status: self.status }
    }
}

impl PaymentIntentResponse {
    /// A copy of this intent.
    pub fn snapshot(&self) -> (r: PaymentIntentResponse)
        ensures
            r@ == self@,
    {
        PaymentIntentResponse {
            id: self.id,
            amount: self.amount,
            currency: self.currency.clone(),
            status: self.status,
        }
    }
}

/// The intent that a valid create request with identifier `id` makes.
pub open spec fn created_intent(id: u128, req: RequestView) -> IntentView {
    IntentView { id, amount: req.amount, currency: req.currency, status: IntentStatus::RequiresConfirmation }
}

/// The intent `i` after a successful confirmation.
pub open spec fn confirmed_intent(i: IntentView) -> IntentView {
    IntentView { status: IntentStatus::Succeeded, ..i }
}

/// A new intent, awaiting confirmation, for a valid create request.
pub fn new_payment_intent(id: u128, req: &CreatePaymentIntentRequest) -> (r: PaymentIntentResponse)
    ensures
        r@ == created_intent(id, req@),
{
    PaymentIntentResponse {
        id,
        amount: req.amount,
        currency: req.currency.clone(),
        status: IntentStatus::RequiresConfirmation,
    }
}

/// The intent `p` moved to `Succeeded`.
pub fn confirm_transition(p: &PaymentIntentResponse) -> (r: PaymentIntentResponse)
    ensures
        r@ == confirmed_intent(p@),
{
    PaymentIntentResponse {
        id: p.id,
        amount: p.amount,
        currency: p.currency.clone(),
        status: IntentStatus::Succeeded,
    }
}

/// The body of a create request.
#[derive(Debug)]
pub struct CreatePaymentIntentRequest {
    pub amount: i64,
    pub currency: String,
}

/// The mathematical value of a create request.
pub struct RequestView {
    pub amount: i64,
    pub currency: Seq<char>,
}

impl View for CreatePaymentIntentRequest {
    type V = RequestView;

    open spec fn view(&self) -> RequestView {
        RequestView { amount: self.amount, currency: self.currency@ }
    }
}

/// Why a create request is refused before any storage is touched.
#[derive(Clone, Copy, Debug, PartialEq, Eq, Structural)]
pub enum ValidationError {
    NonPositiveAmount,
    MissingCurrency,
    MissingUrl,
}

/// The client-facing message of a validation error.
pub open spec fn validation_message(e: ValidationError) -> Seq<char> {
    match e {
        ValidationError::NonPositiveAmount => "amount must be > 0"@,
        ValidationError::MissingCurrency => "currency is required"@,
        ValidationError::MissingUrl => "url is required"@,
    }
}

impl ValidationError {
    /// The client-facing message of this error.
    pub fn message(&self) -> (r: &'static str)
        ensures
            r@ == validation_message(*self),
    {
        match self {
            ValidationError::NonPositiveAmount => "amount must be > 0",
            ValidationError::MissingCurrency => "currency is required",
            ValidationError::MissingUrl => "url is required",
        }
    }
}

/// The first rule that a create request breaks, if any: the amount must be
/// positive, then the currency must hold more than whitespace.
pub open spec fn request_problem(req: RequestView) -> Option<ValidationError> {
    if req.amount <= 0 {
        Some(ValidationError::NonPositiveAmount)
    } else if trimmed(req.currency).len() == 0 {
        Some(ValidationError::MissingCurrency)
    } else {
        None
    }
}

/// Whether a create request may proceed to storage.
pub open spec fn request_valid(req: RequestView) -> bool {
    request_problem(req) is None
}

/// Checks a create request, naming the first rule it breaks.
pub fn check_create_request(req: &CreatePaymentIntentRequest) -> (r: Result<(), ValidationError>)
    ensures
        r is Ok <==> request_problem(req@) is None,
        r is Err ==> request_problem(req@) == Some(r->Err_0),
{
    if req.amount <= 0 {
        return Err(ValidationError::NonPositiveAmount);
    }
    if is_blank(req.currency.as_str()) {
        return Err(ValidationError::MissingCurrency);
    }
    Ok(())
}

/// Checks a create request; on refusal, the message of the first rule it
/// breaks.
pub fn validate_create_payment_intent(req: &CreatePaymentIntentRequest) -> (r: Result<(), &'static str>)
    ensures
        r is Ok <==> request_problem(req@) is None,
        r is Err ==> r->Err_0@ == validation_message(request_problem(req@).unwrap()),
{
    match check_create_request(req) {
        Ok(()) => Ok(()),
        Err(e) => Err(e.message()),
    }
}

/// The fingerprint of a create request: its amount as given and its currency
/// trimmed and lower-cased.
pub open spec fn fingerprint(req: RequestView) -> Seq<char> {
    "amount="@ + decimal(req.amount as int) + "&currency="@ + lower_of(trimmed(req.currency))
}

/// The fingerprint of a create request, used to detect an idempotency key
/// reused with a materially different request.
pub fn request_fingerprint(req: &CreatePaymentIntentRequest) -> (r: String)
    ensures
        r@ == fingerprint(req@),
{
    let mut r = String::from_str("amount=");
    let amount = decimal_text(req.amount);
    r.append(amount.as_str());
    r.append("&currency=");
    let currency = to_lowercase(trim(req.currency.as_str()));
    r.append(currency.as_str());
    r
}

} // verus!
