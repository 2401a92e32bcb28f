//! A durable stream-consuming worker: the decisions that drain a job stream
//! with a persisted cursor, idempotency markers and time-based retention.
pub mod clock;
pub mod dispatch;
pub mod entry_id;
pub mod keys;
pub mod trim;
pub mod value;
pub mod worker;
