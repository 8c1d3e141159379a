//! Payment-intent lifecycle with exactly-once create semantics under client
//! retries: idempotency-key reservation, a two-state intent machine, and a
//! transactional outbox of domain events.

pub mod text;
pub mod intent;
pub mod error;
pub mod ids;
pub mod outbox;
pub mod idempotency;
pub mod store;
pub mod laws;
pub mod webhook;
