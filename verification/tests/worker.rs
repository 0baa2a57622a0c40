//! The delivery worker: claims, retries, the attempt ceiling and the claim
//! visibility timeout.

use newsletter_outbox::newsletters::{publish_newsletter, FormData, PublishOutcome};
use newsletter_outbox::store::{Database, TaskStatus};
use newsletter_outbox::subscriptions::subscribe;
use newsletter_outbox::subscriptions_confirm::{confirm, Parameters};
use newsletter_outbox::worker::{claim_due_tasks, resolve_task, SendOutcome, WorkerConfig};

fn outbox_with_one_task() -> Database {
    let mut db = Database::new();
    let token = subscribe(&mut db, "one@example.com".to_string(), "One".to_string(), 0).unwrap();
    confirm(&mut db, Parameters { subscription_token: token.as_ref().to_string() }).unwrap();
    let outcome = publish_newsletter(
        &mut db,
        1,
        FormData {
            title: "T".to_string(),
            html: "<p>h</p>".to_string(),
            text: "t".to_string(),
            idempotency_key: "worker-key".to_string(),
        },
        0,
    );
    assert!(matches!(outcome, PublishOutcome::Accepted(_)));
    assert_eq!(db.tasks.len(), 1);
    db
}

#[test]
fn a_task_that_always_fails_is_parked_after_exactly_the_configured_attempts() {
    let mut db = outbox_with_one_task();
    let cfg = WorkerConfig::default();
    let mut now: u64 = 1;
    let mut cycles: u64 = 0;
    loop {
        let claimed = claim_due_tasks(&mut db, now, &cfg);
        if claimed.is_empty() {
            break;
        }
        assert_eq!(claimed.len(), 1);
        let status = resolve_task(
            &mut db,
            claimed[0],
            SendOutcome::TransientFailure("mail relay unreachable".to_string()),
            now,
            &cfg,
        );
        cycles += 1;
        if cycles < cfg.max_attempts {
            assert!(matches!(status, TaskStatus::Pending));
        } else {
            assert!(matches!(status, TaskStatus::FailedPermanently));
        }
        // Jump past any scheduled backoff so the next claim is due.
        now += cfg.backoff_cap + 1;
    }
    // Parked after exactly the configured ceiling, never fewer, never more.
    assert_eq!(cycles, cfg.max_attempts);
    assert_eq!(db.tasks[0].attempts, cfg.max_attempts);
    assert!(matches!(db.tasks[0].status, TaskStatus::FailedPermanently));
    assert_eq!(db.tasks[0].last_error.as_deref(), Some("mail relay unreachable"));
}

#[test]
fn a_permanent_transport_failure_parks_the_task_at_once() {
    let mut db = outbox_with_one_task();
    let cfg = WorkerConfig::default();
    let claimed = claim_due_tasks(&mut db, 1, &cfg);
    assert_eq!(claimed.len(), 1);
    let status = resolve_task(
        &mut db,
        claimed[0],
        SendOutcome::PermanentFailure("mailbox does not exist".to_string()),
        2,
        &cfg,
    );
    assert!(matches!(status, TaskStatus::FailedPermanently));
    assert_eq!(db.tasks[0].attempts, 1);
    assert!(claim_due_tasks(&mut db, u64::MAX - 400000, &cfg).is_empty());
}

#[test]
fn a_claimed_task_is_not_claimable_until_the_timeout_expires() {
    let mut db = outbox_with_one_task();
    let cfg = WorkerConfig::default();
    let claimed = claim_due_tasks(&mut db, 1000, &cfg);
    assert_eq!(claimed.len(), 1);
    // A second worker polling within the visibility timeout gets nothing.
    let contested = claim_due_tasks(&mut db, 1000 + cfg.claim_timeout - 1, &cfg);
    assert!(contested.is_empty());
    // Once the claim has gone stale, the task is claimable again.
    let reclaimed = claim_due_tasks(&mut db, 1000 + cfg.claim_timeout, &cfg);
    assert_eq!(reclaimed.len(), 1);
}

#[test]
fn a_failed_task_waits_out_its_backoff_before_the_next_attempt() {
    let mut db = outbox_with_one_task();
    let cfg = WorkerConfig::default();
    let claimed = claim_due_tasks(&mut db, 1000, &cfg);
    let status = resolve_task(
        &mut db,
        claimed[0],
        SendOutcome::TransientFailure("timeout".to_string()),
        2000,
        &cfg,
    );
    assert!(matches!(status, TaskStatus::Pending));
    // The first retry is scheduled one base backoff after the failure.
    assert_eq!(db.tasks[0].next_retry_at, 2000 + cfg.base_backoff);
    assert!(claim_due_tasks(&mut db, 2000 + cfg.base_backoff - 1, &cfg).is_empty());
    assert_eq!(claim_due_tasks(&mut db, 2000 + cfg.base_backoff, &cfg).len(), 1);
}

#[test]
fn backoff_doubles_per_failure_up_to_the_cap() {
    let mut db = outbox_with_one_task();
    let cfg = WorkerConfig {
        max_attempts: 20,
        base_backoff: 1000,
        backoff_cap: 3000,
        claim_timeout: 300000,
        batch_size: 10,
    };
    let mut now: u64 = 0;
    let mut expected_delays = Vec::new();
    for _ in 0..4 {
        let claimed = claim_due_tasks(&mut db, now, &cfg);
        assert_eq!(claimed.len(), 1);
        resolve_task(
            &mut db,
            claimed[0],
            SendOutcome::TransientFailure("e".to_string()),
            now,
            &cfg,
        );
        expected_delays.push(db.tasks[0].next_retry_at - now);
        now = db.tasks[0].next_retry_at;
    }
    // 1000, 2000, then capped at 3000.
    assert_eq!(expected_delays, vec![1000, 2000, 3000, 3000]);
}

#[test]
fn a_batch_never_exceeds_its_configured_size() {
    let mut db = Database::new();
    for i in 0..5 {
        let email = format!("user{}@example.com", i);
        let token = subscribe(&mut db, email, "N".to_string(), 0).unwrap();
        confirm(&mut db, Parameters { subscription_token: token.as_ref().to_string() }).unwrap();
    }
    let outcome = publish_newsletter(
        &mut db,
        1,
        FormData {
            title: "T".to_string(),
            html: "h".to_string(),
            text: "t".to_string(),
            idempotency_key: "batch-key".to_string(),
        },
        0,
    );
    assert!(matches!(outcome, PublishOutcome::Accepted(_)));
    assert_eq!(db.tasks.len(), 5);
    let cfg = WorkerConfig { batch_size: 2, ..WorkerConfig::default() };
    let first = claim_due_tasks(&mut db, 1, &cfg);
    assert_eq!(first.len(), 2);
    let second = claim_due_tasks(&mut db, 1, &cfg);
    assert_eq!(second.len(), 2);
    // The two batches are disjoint: claim exclusivity across workers.
    assert!(first.iter().all(|i| !second.contains(i)));
    let third = claim_due_tasks(&mut db, 1, &cfg);
    assert_eq!(third.len(), 1);
}
