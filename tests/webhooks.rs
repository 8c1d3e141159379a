use api::error::ApiError;
use api::intent::ValidationError;
use api::webhook::{
    generate_secret, prepare_webhook_endpoint, validate_create_webhook_endpoint,
    CreateWebhookEndpointRequest,
};

#[test]
fn webhook_url_is_required() {
    let req = CreateWebhookEndpointRequest { url: "  ".to_string() };
    assert_eq!(validate_create_webhook_endpoint(&req), Err(ValidationError::MissingUrl));
    let err = prepare_webhook_endpoint(req).unwrap_err();
    assert_eq!(err, ApiError::BadRequest(ValidationError::MissingUrl));
    assert_eq!(err.status_code(), 400);
    assert_eq!(err.message(), "url is required");
}

#[test]
fn webhook_secret_is_32_alphanumerics() {
    let s = generate_secret();
    assert_eq!(s.chars().count(), 32);
    assert!(s.chars().all(|c| c.is_ascii_alphanumeric()));
    assert_ne!(generate_secret(), s);
}

#[test]
fn webhook_prepared_row_keeps_url_and_draws_v4_id() {
    let req = CreateWebhookEndpointRequest { url: "https://example.com/hook".to_string() };
    let row = prepare_webhook_endpoint(req).unwrap();
    assert_eq!(row.url, "https://example.com/hook");
    assert_eq!(row.secret.len(), 32);
    assert_eq!((row.id >> 76) & 0xf, 4);
    assert_eq!((row.id >> 62) & 3, 2);
}
