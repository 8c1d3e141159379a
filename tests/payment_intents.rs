use api::error::ApiError;
use api::idempotency::{resolve_existing_record, IdempotencyRecord, Resolution};
use api::intent::{CreatePaymentIntentRequest, IntentStatus, PaymentIntentResponse};
use api::outbox::{insert_event, EventType, OutboxEvent};
use api::store::{
    confirm_payment_intent, confirm_payment_intent_with_event_id, create_payment_intent,
    create_payment_intent_with_ids, get_payment_intent, PaymentStore,
};
use uuid::Uuid;

fn req(amount: i64, currency: &str) -> CreatePaymentIntentRequest {
    CreatePaymentIntentRequest {
        amount,
        currency: currency.to_string(),
    }
}

#[test]
fn create_then_get_payment_intent() {
    let mut store = PaymentStore::new();

    let (status, created) = create_payment_intent(&mut store, None, req(1000, "gbp")).unwrap();
    assert_eq!(status, 201);

    let fetched = get_payment_intent(&store, created.id).unwrap();
    assert_eq!(fetched.id, created.id);
    assert_eq!(fetched.amount, 1000);
    assert_eq!(fetched.currency, "gbp");
    assert_eq!(fetched.status.as_str(), "requires_confirmation");
}

#[test]
fn get_unknown_payment_intent_returns_404() {
    let store = PaymentStore::new();
    let random_id = Uuid::new_v4().as_u128();
    let err = get_payment_intent(&store, random_id).unwrap_err();
    assert_eq!(err.status_code(), 404);
}

#[test]
fn idempotency_same_key_same_body_returns_same_intent() {
    let mut store = PaymentStore::new();

    let (s1, v1) =
        create_payment_intent(&mut store, Some("abc123".to_string()), req(2500, "gbp")).unwrap();
    assert_eq!(s1, 201);
    let (s2, v2) =
        create_payment_intent(&mut store, Some("abc123".to_string()), req(2500, "gbp")).unwrap();
    assert_eq!(s2, 201);
    assert_eq!(v1.id, v2.id);

    assert_eq!(store.intent_count(), 1);
    let created: Vec<&OutboxEvent> = store
        .outbox()
        .iter()
        .filter(|e| e.event_type == EventType::PaymentIntentCreated)
        .collect();
    assert_eq!(created.len(), 1);
    assert_eq!(created[0].payload.id, v1.id);
}

#[test]
fn idempotency_same_key_different_body_returns_409() {
    let mut store = PaymentStore::new();

    let (s1, _) =
        create_payment_intent(&mut store, Some("conflict-key".to_string()), req(2500, "gbp"))
            .unwrap();
    assert_eq!(s1, 201);

    let err = create_payment_intent(&mut store, Some("conflict-key".to_string()), req(9999, "gbp"))
        .unwrap_err();
    assert_eq!(err.status_code(), 409);
    assert_eq!(err, ApiError::IdempotencyConflict);
    assert_eq!(store.intent_count(), 1);
    assert_eq!(store.outbox().len(), 1);
}

#[test]
fn idempotency_reconstructs_response_if_response_body_missing() {
    let mut store = PaymentStore::new();

    let pi_id = Uuid::new_v4().as_u128();
    store
        .insert_intent_row(PaymentIntentResponse {
            id: pi_id,
            amount: 2500_i64,
            currency: "gbp".to_string(),
            status: IntentStatus::RequiresConfirmation,
        })
        .unwrap();

    // A record that was reserved but whose response was never written.
    let req_hash = "amount=2500&currency=gbp";
    store
        .insert_idempotency_record(IdempotencyRecord {
            key: "crash-window-key".to_string(),
            endpoint: "POST /v1/payment_intents".to_string(),
            request_hash: req_hash.to_string(),
            response_body: None,
            payment_intent_id: Some(pi_id),
        })
        .unwrap();

    let (status, v) = create_payment_intent(
        &mut store,
        Some("crash-window-key".to_string()),
        req(2500, "gbp"),
    )
    .unwrap();

    assert_eq!(status, 201);
    assert_eq!(Uuid::from_u128(v.id).to_string(), Uuid::from_u128(pi_id).to_string());
    assert_eq!(v.amount, 2500);
    assert_eq!(v.currency, "gbp");
    assert_eq!(v.status.as_str(), "requires_confirmation");

    // Nothing new was created, and the response was stored for later retries.
    assert_eq!(store.intent_count(), 1);
    assert_eq!(store.outbox().len(), 0);
    let rec = store.idempotency_record(&"crash-window-key".to_string()).unwrap();
    let body = rec.response_body.as_ref().unwrap();
    assert_eq!(body.id, pi_id);
    assert_eq!(body.amount, 2500);
    assert_eq!(rec.payment_intent_id, Some(pi_id));
}

#[test]
fn create_then_confirm_payment_intent_sets_succeeded() {
    let mut store = PaymentStore::new();

    let (status, created) = create_payment_intent(&mut store, None, req(1000, "gbp")).unwrap();
    assert_eq!(status, 201);

    let confirmed = confirm_payment_intent(&mut store, created.id).unwrap();
    assert_eq!(confirmed.id, created.id);
    assert_eq!(confirmed.status.as_str(), "succeeded");

    let fetched = get_payment_intent(&store, created.id).unwrap();
    assert_eq!(fetched.status.as_str(), "succeeded");
}

#[test]
fn confirming_twice_returns_409() {
    let mut store = PaymentStore::new();

    let (status, created) = create_payment_intent(&mut store, None, req(1500, "gbp")).unwrap();
    assert_eq!(status, 201);

    assert!(confirm_payment_intent(&mut store, created.id).is_ok());

    let err = confirm_payment_intent(&mut store, created.id).unwrap_err();
    assert_eq!(err.status_code(), 409);
    assert_eq!(err.message(), "cannot confirm payment_intent in status 'succeeded'");
    assert_eq!(
        get_payment_intent(&store, created.id).unwrap().status,
        IntentStatus::Succeeded
    );
}

#[test]
fn confirm_unknown_payment_intent_returns_404() {
    let mut store = PaymentStore::new();
    let random_id = Uuid::new_v4().as_u128();
    let err = confirm_payment_intent(&mut store, random_id).unwrap_err();
    assert_eq!(err.status_code(), 404);
    assert_eq!(store.outbox().len(), 0);
}

#[test]
fn create_payment_intent_writes_created_outbox_event() {
    let mut store = PaymentStore::new();

    let (status, created) = create_payment_intent(&mut store, None, req(2000, "gbp")).unwrap();
    assert_eq!(status, 201);

    let row = store.outbox().last().unwrap();
    assert_eq!(row.event_type.as_str(), "payment_intent.created");
    assert_eq!(row.payload.id, created.id);
    assert_eq!(row.payload.amount, 2000);
    assert_eq!(row.payload.currency, "gbp");
    assert_eq!(row.payload.status.as_str(), "requires_confirmation");
}

#[test]
fn confirm_payment_intent_writes_succeeded_outbox_event() {
    let mut store = PaymentStore::new();

    let (status, created) = create_payment_intent(&mut store, None, req(3000, "gbp")).unwrap();
    assert_eq!(status, 201);
    let pi_id = created.id;

    assert!(confirm_payment_intent(&mut store, pi_id).is_ok());

    let succeeded_event = store.outbox().iter().find(|row| {
        row.event_type == EventType::PaymentIntentSucceeded && row.payload.id == pi_id
    });

    let event = succeeded_event.expect("expected payment_intent.succeeded outbox event");

    assert_eq!(event.event_type.as_str(), "payment_intent.succeeded");
    assert_eq!(event.payload.amount, 3000);
    assert_eq!(event.payload.currency, "gbp");
    assert_eq!(event.payload.status.as_str(), "succeeded");
}

#[test]
fn unkeyed_creates_make_distinct_intents() {
    let mut store = PaymentStore::new();
    let (_, a) = create_payment_intent(&mut store, None, req(100, "usd")).unwrap();
    let (_, b) = create_payment_intent(&mut store, None, req(100, "usd")).unwrap();
    assert_ne!(a.id, b.id);
    assert_eq!(a.status, IntentStatus::RequiresConfirmation);
    assert_eq!(b.status, IntentStatus::RequiresConfirmation);
    assert_eq!(store.intent_count(), 2);
    assert_eq!(store.outbox().len(), 2);
}

#[test]
fn fresh_ids_are_used_for_new_intents_and_events() {
    let mut store = PaymentStore::new();
    let (status, pi) =
        create_payment_intent_with_ids(&mut store, Some("k".to_string()), req(700, "chf"), 11, 12)
            .unwrap();
    assert_eq!(status, 201);
    assert_eq!(pi.id, 11);
    assert_eq!(store.outbox()[0].id, 12);
    let rec = store.idempotency_record(&"k".to_string()).unwrap();
    assert_eq!(rec.request_hash, "amount=700&currency=chf");
    assert_eq!(rec.endpoint, "POST /v1/payment_intents");
    assert_eq!(rec.payment_intent_id, Some(11));
    assert_eq!(rec.response_body.as_ref().unwrap().id, 11);
}

#[test]
fn keyed_retry_with_recased_currency_replays() {
    let mut store = PaymentStore::new();
    let (_, a) =
        create_payment_intent_with_ids(&mut store, Some("k".to_string()), req(5, "gbp"), 1, 2).unwrap();
    let (s, b) =
        create_payment_intent_with_ids(&mut store, Some("k".to_string()), req(5, " GBP "), 3, 4)
            .unwrap();
    assert_eq!(s, 201);
    assert_eq!(b.id, a.id);
    assert_eq!(b.currency, "gbp");
    assert_eq!(store.intent_count(), 1);
}

#[test]
fn different_keys_make_different_intents() {
    let mut store = PaymentStore::new();
    let (_, a) =
        create_payment_intent_with_ids(&mut store, Some("k1".to_string()), req(5, "gbp"), 1, 2).unwrap();
    let (_, b) =
        create_payment_intent_with_ids(&mut store, Some("k2".to_string()), req(5, "gbp"), 3, 4).unwrap();
    assert_ne!(a.id, b.id);
    assert_eq!(store.intent_count(), 2);
}

#[test]
fn duplicate_intent_id_fails_and_changes_nothing() {
    let mut store = PaymentStore::new();
    create_payment_intent_with_ids(&mut store, None, req(5, "gbp"), 1, 2).unwrap();
    let err =
        create_payment_intent_with_ids(&mut store, Some("k".to_string()), req(5, "gbp"), 1, 3)
            .unwrap_err();
    assert_eq!(err, ApiError::DuplicateId);
    assert_eq!(err.status_code(), 500);
    assert_eq!(store.intent_count(), 1);
    assert_eq!(store.outbox().len(), 1);
    // The key was not reserved: a retry with fresh identifiers succeeds.
    assert!(store.idempotency_record(&"k".to_string()).is_none());
    let (_, pi) =
        create_payment_intent_with_ids(&mut store, Some("k".to_string()), req(5, "gbp"), 4, 5).unwrap();
    assert_eq!(pi.id, 4);
}

#[test]
fn duplicate_event_id_fails_and_changes_nothing() {
    let mut store = PaymentStore::new();
    create_payment_intent_with_ids(&mut store, None, req(5, "gbp"), 1, 2).unwrap();
    let err = create_payment_intent_with_ids(&mut store, None, req(5, "gbp"), 3, 2).unwrap_err();
    assert_eq!(err, ApiError::DuplicateId);
    assert_eq!(store.intent_count(), 1);
    let err = confirm_payment_intent_with_event_id(&mut store, 1, 2).unwrap_err();
    assert_eq!(err, ApiError::DuplicateId);
    assert_eq!(get_payment_intent(&store, 1).unwrap().status, IntentStatus::RequiresConfirmation);
}

#[test]
fn validation_failure_under_key_releases_key() {
    let mut store = PaymentStore::new();
    let err =
        create_payment_intent_with_ids(&mut store, Some("k".to_string()), req(0, "gbp"), 1, 2)
            .unwrap_err();
    assert_eq!(err, ApiError::BadRequest(api::intent::ValidationError::NonPositiveAmount));
    assert_eq!(err.status_code(), 400);
    assert!(store.idempotency_record(&"k".to_string()).is_none());
    let (s, pi) =
        create_payment_intent_with_ids(&mut store, Some("k".to_string()), req(10, "gbp"), 1, 2).unwrap();
    assert_eq!(s, 201);
    assert_eq!(pi.amount, 10);
}

#[test]
fn record_without_response_or_intent_is_inconsistent() {
    let mut store = PaymentStore::new();
    store
        .insert_idempotency_record(IdempotencyRecord {
            key: "broken".to_string(),
            endpoint: "POST /v1/payment_intents".to_string(),
            request_hash: "amount=5&currency=gbp".to_string(),
            response_body: None,
            payment_intent_id: None,
        })
        .unwrap();
    let err = create_payment_intent(&mut store, Some("broken".to_string()), req(5, "gbp")).unwrap_err();
    assert_eq!(err, ApiError::InconsistentRecord);
    assert_eq!(err.status_code(), 500);
    assert_eq!(store.intent_count(), 0);
}

#[test]
fn record_referring_to_missing_intent_is_storage_error() {
    let mut store = PaymentStore::new();
    store
        .insert_idempotency_record(IdempotencyRecord {
            key: "dangling".to_string(),
            endpoint: "POST /v1/payment_intents".to_string(),
            request_hash: "amount=5&currency=gbp".to_string(),
            response_body: None,
            payment_intent_id: Some(77),
        })
        .unwrap();
    let err = create_payment_intent(&mut store, Some("dangling".to_string()), req(5, "gbp")).unwrap_err();
    assert_eq!(err, ApiError::DanglingReference);
    assert_eq!(err.status_code(), 500);
    let rec = store.idempotency_record(&"dangling".to_string()).unwrap();
    assert!(rec.response_body.is_none());
}

#[test]
fn record_for_other_endpoint_does_not_hold_key() {
    let mut store = PaymentStore::new();
    store
        .insert_idempotency_record(IdempotencyRecord {
            key: "shared".to_string(),
            endpoint: "POST /v1/refunds".to_string(),
            request_hash: "other".to_string(),
            response_body: None,
            payment_intent_id: None,
        })
        .unwrap();
    let (s, _) =
        create_payment_intent(&mut store, Some("shared".to_string()), req(5, "gbp")).unwrap();
    assert_eq!(s, 201);
}

#[test]
fn duplicate_raw_rows_are_refused() {
    let mut store = PaymentStore::new();
    let row = || PaymentIntentResponse {
        id: 9,
        amount: 1,
        currency: "gbp".to_string(),
        status: IntentStatus::Succeeded,
    };
    assert!(store.insert_intent_row(row()).is_ok());
    assert_eq!(store.insert_intent_row(row()), Err(ApiError::DuplicateId));
    let rec = || IdempotencyRecord {
        key: "x".to_string(),
        endpoint: "POST /v1/payment_intents".to_string(),
        request_hash: "h".to_string(),
        response_body: None,
        payment_intent_id: Some(9),
    };
    assert!(store.insert_idempotency_record(rec()).is_ok());
    assert_eq!(store.insert_idempotency_record(rec()), Err(ApiError::DuplicateId));
}

#[test]
fn confirm_of_succeeded_row_names_status() {
    let mut store = PaymentStore::new();
    store
        .insert_intent_row(PaymentIntentResponse {
            id: 9,
            amount: 1,
            currency: "gbp".to_string(),
            status: IntentStatus::Succeeded,
        })
        .unwrap();
    let err = confirm_payment_intent(&mut store, 9).unwrap_err();
    assert_eq!(err, ApiError::InvalidState(IntentStatus::Succeeded));
    assert_eq!(store.outbox().len(), 0);
}

#[test]
fn resolution_of_existing_records() {
    let base = |hash: &str, body: Option<PaymentIntentResponse>, pid: Option<u128>| IdempotencyRecord {
        key: "k".to_string(),
        endpoint: "POST /v1/payment_intents".to_string(),
        request_hash: hash.to_string(),
        response_body: body,
        payment_intent_id: pid,
    };
    let h = "amount=1&currency=gbp".to_string();
    let body = PaymentIntentResponse {
        id: 3,
        amount: 1,
        currency: "gbp".to_string(),
        status: IntentStatus::RequiresConfirmation,
    };
    assert_eq!(resolve_existing_record(&base("other", None, Some(3)), &h), Resolution::Conflict);
    assert_eq!(resolve_existing_record(&base(&h, Some(body), Some(3)), &h), Resolution::Replay);
    assert_eq!(resolve_existing_record(&base(&h, None, Some(3)), &h), Resolution::Reconstruct(3));
    assert_eq!(resolve_existing_record(&base(&h, None, None), &h), Resolution::Inconsistent);
}

#[test]
fn insert_event_appends_in_order_and_refuses_duplicates() {
    let mut outbox: Vec<OutboxEvent> = Vec::new();
    let p = || PaymentIntentResponse {
        id: 1,
        amount: 1,
        currency: "gbp".to_string(),
        status: IntentStatus::RequiresConfirmation,
    };
    assert!(insert_event(&mut outbox, 10, EventType::PaymentIntentCreated, p()).is_ok());
    assert!(insert_event(&mut outbox, 11, EventType::PaymentIntentSucceeded, p()).is_ok());
    assert_eq!(
        insert_event(&mut outbox, 10, EventType::PaymentIntentSucceeded, p()),
        Err(ApiError::DuplicateId)
    );
    assert_eq!(outbox.len(), 2);
    assert_eq!(outbox[0].event_type.as_str(), "payment_intent.created");
    assert_eq!(outbox[1].event_type.as_str(), "payment_intent.succeeded");
}
