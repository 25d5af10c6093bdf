//! Newsletter delivery core: idempotent request handling, the delivery
//! queue with its retry policy, and the retention pruner, over an in-memory
//! store that holds the logical schema.
pub mod database;
pub mod delivery_queue;
pub mod idempotency;
pub mod idempotency_key;
pub mod newsletter;
pub mod response;
pub mod subscriber_email;
pub mod worker;
pub mod web;
pub mod laws;
