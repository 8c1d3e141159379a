//! Webhook endpoint registration: request validation and the row that a new
//! endpoint is stored as, with its freshly drawn identifier and signing
//! secret.

use vstd::prelude::*;
use rand::distr::{Alphanumeric, SampleString};
use crate::error::ApiError;
use crate::ids::new_uuid;
use crate::intent::ValidationError;
use crate::text::{is_blank, trimmed};

verus! {

/// The number of characters of a signing secret.
pub const SECRET_LEN: usize = 32;

/// Whether `c` is an ASCII letter or digit.
pub open spec fn alphanumeric(c: char) -> bool {
    ('a' <= c && c <= 'z') || ('A' <= c && c <= 'Z') || ('0' <= c && c <= '9')
}

/// Whether `s` has the shape of a signing secret.
pub open spec fn secret_shape(s: Seq<char>) -> bool {
    s.len() == SECRET_LEN && forall|i: int| 0 <= i < s.len() ==> alphanumeric(#[trigger] s[i])
}

/// Relies on `rand::distr::Alphanumeric` through `SampleString::sample_string`,
/// with the thread-local generator `rand::rng()`: `len` characters, each one of
/// `A`-`Z`, `a`-`z`, `0`-`9`.
#[verifier::external_body]
fn random_alphanumeric(len: usize) -> (r: String)
    ensures
        r@.len() == len,
        forall|i: int| 0 <= i < r@.len() ==> alphanumeric(#[trigger] r@[i]),
{
    Alphanumeric.sample_string(&mut rand::rng(), len)
}

/// A fresh random signing secret.
pub fn generate_secret() -> (r: String)
    ensures
        secret_shape(r@),
{
    random_alphanumeric(SECRET_LEN)
}

/// The body of a webhook endpoint registration.
#[derive(Debug)]
pub struct CreateWebhookEndpointRequest {
    pub url: String,
}

/// A registered endpoint as returned on creation: the only response that
/// carries its secret. `created_at` counts microseconds since the Unix epoch.
#[derive(Debug)]
pub struct WebhookEndpointCreatedResponse {
    pub id: u128,
    pub url: String,
    pub secret: String,
    pub is_enabled: bool,
    pub created_at: i64,
}

/// A registered endpoint as listed, without its secret. `created_at` counts
/// microseconds since the Unix epoch.
#[derive(Debug)]
pub struct WebhookEndpointListItem {
    pub id: u128,
    pub url: String,
    pub is_enabled: bool,
    pub created_at: i64,
}

/// The values a new endpoint is stored with; the store adds whether it is
/// enabled and when it was created.
#[derive(Debug)]
pub struct NewWebhookEndpoint {
    pub id: u128,
    pub url: String,
    pub secret: String,
}

/// Checks a registration: the url must hold more than whitespace.
pub fn validate_create_webhook_endpoint(req: &CreateWebhookEndpointRequest) -> (r: Result<(), ValidationError>)
    ensures
        r is Ok <==> trimmed(req.url@).len() > 0,
        r is Err ==> r == Err::<(), ValidationError>(ValidationError::MissingUrl),
{
    if is_blank(req.url.as_str()) {
        Err(ValidationError::MissingUrl)
    } else {
        Ok(())
    }
}

/// The row for a valid registration, under a freshly drawn identifier and
/// secret; a registration whose url is blank is a bad request.
pub fn prepare_webhook_endpoint(req: CreateWebhookEndpointRequest) -> (r: Result<NewWebhookEndpoint, ApiError>)
    ensures
        r is Ok <==> trimmed(req.url@).len() > 0,
        r is Err ==> r == Err::<NewWebhookEndpoint, ApiError>(ApiError::BadRequest(ValidationError::MissingUrl)),
        r is Ok ==> r->Ok_0.url@ == req.url@ && secret_shape(r->Ok_0.secret@),
{
    match validate_create_webhook_endpoint(&req) {
        Err(e) => Err(ApiError::BadRequest(e)),
        Ok(()) => {
            let id = new_uuid();
            let secret = generate_secret();
            Ok(NewWebhookEndpoint { id, url: req.url, secret })
        },
    }
}

} // verus!
