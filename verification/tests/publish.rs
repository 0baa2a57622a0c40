//! The idempotent publish command, end to end against the in-memory store.

use newsletter_outbox::idempotency::IdempotencyKey;
use newsletter_outbox::idempotency::NextAction;
use newsletter_outbox::idempotency::try_processing;
use newsletter_outbox::idempotency::release_stale_reservation;
use newsletter_outbox::newsletters::{publish_newsletter, FormData, PublishOutcome};
use newsletter_outbox::response::HttpResponse;
use newsletter_outbox::store::{Database, TaskStatus};
use newsletter_outbox::subscriptions::subscribe;
use newsletter_outbox::subscriptions_confirm::{confirm, Parameters};
use newsletter_outbox::worker::{claim_due_tasks, resolve_task, SendOutcome, WorkerConfig};

fn confirmed_subscriber(db: &mut Database, email: &str, name: &str) {
    let token = subscribe(db, email.to_string(), name.to_string(), 1000).unwrap();
    let outcome = confirm(
        db,
        Parameters { subscription_token: token.as_ref().to_string() },
    );
    assert!(outcome.is_ok());
}

fn form(key: &str) -> FormData {
    FormData {
        title: "Newsletter Title".to_string(),
        html: "<p>Newsletter body as HTML</p>".to_string(),
        text: "Newsletter body as plain text".to_string(),
        idempotency_key: key.to_string(),
    }
}

fn response_bytes(r: &HttpResponse) -> (u16, Vec<(String, String)>, Vec<u8>) {
    (
        r.status,
        r.headers.iter().map(|h| (h.name.clone(), h.value.clone())).collect(),
        r.body.clone(),
    )
}

#[test]
fn publishing_with_three_confirmed_subscribers_delivers_three_tasks() {
    let mut db = Database::new();
    confirmed_subscriber(&mut db, "one@example.com", "One");
    confirmed_subscriber(&mut db, "two@example.com", "Two");
    confirmed_subscriber(&mut db, "three@example.com", "Three");
    let key = "abcdefghijklmnopqrstuvwxy";
    assert_eq!(key.len(), 25);

    let first = publish_newsletter(&mut db, 7, form(key), 2000);
    let first_response = match first {
        PublishOutcome::Accepted(r) => r,
        _ => panic!("the first publish must be accepted"),
    };
    assert_eq!(first_response.status, 303);
    assert_eq!(db.issues.len(), 1);
    assert_eq!(db.tasks.len(), 3);

    let replay = publish_newsletter(&mut db, 7, form(key), 9999);
    let replayed_response = match replay {
        PublishOutcome::Replayed(r) => r,
        _ => panic!("the second publish must replay"),
    };
    assert_eq!(response_bytes(&first_response), response_bytes(&replayed_response));
    assert_eq!(db.issues.len(), 1);
    assert_eq!(db.tasks.len(), 3);

    let cfg = WorkerConfig::default();
    let claimed = claim_due_tasks(&mut db, 3000, &cfg);
    assert_eq!(claimed.len(), 3);
    for index in claimed {
        let status = resolve_task(&mut db, index, SendOutcome::Sent, 3001, &cfg);
        assert!(matches!(status, TaskStatus::Delivered));
    }
    assert!(db.tasks.iter().all(|t| matches!(t.status, TaskStatus::Delivered)));
}

#[test]
fn a_publish_response_redirects_to_the_newsletter_form() {
    let mut db = Database::new();
    let outcome = publish_newsletter(&mut db, 1, form("a-key"), 0);
    let response = match outcome {
        PublishOutcome::Accepted(r) => r,
        _ => panic!("expected acceptance"),
    };
    assert_eq!(response.status, 303);
    assert_eq!(response.headers.len(), 1);
    assert_eq!(response.headers[0].name, "Location");
    assert_eq!(response.headers[0].value, "/admin/newsletters");
    assert!(response.body.is_empty());
}

#[test]
fn a_second_call_before_the_first_commits_creates_no_second_issue() {
    let mut db = Database::new();
    confirmed_subscriber(&mut db, "one@example.com", "One");
    let key = IdempotencyKey::parse("abcdefghijklmnopqrstuvwxy".to_string()).unwrap();
    // The first request has won the reservation but not committed yet.
    let action = try_processing(&mut db, &key, 7);
    assert!(matches!(action, NextAction::StartProcessing(_)));
    // A concurrent request with the same key must back off, not publish.
    let outcome = publish_newsletter(&mut db, 7, form("abcdefghijklmnopqrstuvwxy"), 2000);
    assert!(matches!(outcome, PublishOutcome::AlreadyStarted));
    assert_eq!(db.issues.len(), 0);
    assert_eq!(db.tasks.len(), 0);
}

#[test]
fn a_stale_reservation_is_released_and_the_retry_succeeds() {
    let mut db = Database::new();
    confirmed_subscriber(&mut db, "one@example.com", "One");
    let key = IdempotencyKey::parse("retry-key".to_string()).unwrap();
    let action = try_processing(&mut db, &key, 7);
    assert!(matches!(action, NextAction::StartProcessing(_)));
    // The winner crashed before committing: no issue, no tasks, no response.
    assert_eq!(db.issues.len(), 0);
    assert_eq!(db.tasks.len(), 0);
    assert!(release_stale_reservation(&mut db, &key, 7));
    let outcome = publish_newsletter(&mut db, 7, form("retry-key"), 2000);
    assert!(matches!(outcome, PublishOutcome::Accepted(_)));
    assert_eq!(db.issues.len(), 1);
    assert_eq!(db.tasks.len(), 1);
}

#[test]
fn zero_confirmed_subscribers_publishes_an_issue_with_no_tasks() {
    let mut db = Database::new();
    // A pending, unconfirmed subscriber does not receive newsletters.
    let token = subscribe(&mut db, "pending@example.com".to_string(), "P".to_string(), 0);
    assert!(token.is_ok());
    let outcome = publish_newsletter(&mut db, 7, form("abcdefghijklmnopqrstuvwxy"), 2000);
    assert!(matches!(outcome, PublishOutcome::Accepted(_)));
    assert_eq!(db.issues.len(), 1);
    assert_eq!(db.tasks.len(), 0);
    let cfg = WorkerConfig::default();
    let claimed = claim_due_tasks(&mut db, 3000, &cfg);
    assert!(claimed.is_empty());
}

#[test]
fn a_malformed_idempotency_key_is_rejected_before_any_work() {
    let mut db = Database::new();
    let empty_key = publish_newsletter(&mut db, 7, form(""), 0);
    assert!(matches!(empty_key, PublishOutcome::InvalidKey(_)));
    let oversized = "x".repeat(51);
    let long_key = publish_newsletter(&mut db, 7, form(&oversized), 0);
    assert!(matches!(long_key, PublishOutcome::InvalidKey(_)));
    assert_eq!(db.issues.len(), 0);
    assert_eq!(db.idempotency.len(), 0);
}

#[test]
fn publishes_under_different_keys_are_independent_issues() {
    let mut db = Database::new();
    confirmed_subscriber(&mut db, "one@example.com", "One");
    let first = publish_newsletter(&mut db, 7, form("key-one"), 0);
    assert!(matches!(first, PublishOutcome::Accepted(_)));
    let second = publish_newsletter(&mut db, 7, form("key-two"), 1);
    assert!(matches!(second, PublishOutcome::Accepted(_)));
    assert_eq!(db.issues.len(), 2);
}

#[test]
fn an_issue_records_the_submitted_content() {
    let mut db = Database::new();
    let outcome = publish_newsletter(&mut db, 7, form("content-key"), 4242);
    assert!(matches!(outcome, PublishOutcome::Accepted(_)));
    assert_eq!(db.issues.len(), 1);
    assert_eq!(db.issues[0].title, "Newsletter Title");
    assert_eq!(db.issues[0].html_content, "<p>Newsletter body as HTML</p>");
    assert_eq!(db.issues[0].text_content, "Newsletter body as plain text");
    assert_eq!(db.issues[0].published_at, 4242);
}

#[test]
fn newsletters_are_not_staged_for_unconfirmed_subscribers() {
    let mut db = Database::new();
    confirmed_subscriber(&mut db, "confirmed@example.com", "C");
    let pending = subscribe(&mut db, "pending@example.com".to_string(), "P".to_string(), 0);
    assert!(pending.is_ok());
    let outcome = publish_newsletter(&mut db, 7, form("mixed-status-key"), 2000);
    assert!(matches!(outcome, PublishOutcome::Accepted(_)));
    assert_eq!(db.tasks.len(), 1);
    assert_eq!(db.tasks[0].email, "confirmed@example.com");
}
