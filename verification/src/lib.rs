//! A subscription-management backend core: visitors subscribe by email and
//! confirm through an emailed token, and an administrator publishes newsletter
//! issues that are delivered exactly-once-effective to every confirmed
//! subscriber despite client retries and process restarts.
//!
//! The heart of the crate is the idempotent command + transactional outbox
//! pattern: publishing a newsletter is safe to retry at the request layer
//! because the response to the first successful attempt is persisted under a
//! caller-chosen idempotency key and replayed byte-identically afterwards,
//! while per-subscriber delivery tasks are staged in the same atomic commit
//! that records the issue itself. A delivery worker later claims staged tasks
//! with mutual exclusion, retries transient transport failures with capped
//! exponential backoff, and parks poison tasks after a bounded number of
//! attempts.

pub mod domain;
pub mod idempotency;
pub mod newsletters;
pub mod response;
pub mod store;
pub mod subscriptions;
pub mod subscriptions_confirm;
pub mod worker;
