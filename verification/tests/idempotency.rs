//! Idempotency keys and the reservation gate.

use newsletter_outbox::idempotency::{
    release_stale_reservation, try_processing, IdempotencyKey, NextAction,
};
use newsletter_outbox::store::Database;

#[test]
fn a_key_of_one_to_fifty_characters_is_accepted() {
    assert!(IdempotencyKey::parse("x".to_string()).is_ok());
    assert!(IdempotencyKey::parse("x".repeat(50)).is_ok());
}

#[test]
fn an_empty_key_is_rejected() {
    let err = IdempotencyKey::parse(String::new()).unwrap_err();
    assert_eq!(err, "the idempotency key cannot be empty");
}

#[test]
fn an_oversized_key_is_rejected() {
    let err = IdempotencyKey::parse("x".repeat(51)).unwrap_err();
    assert_eq!(err, "the idempotency key must be no longer than 50 characters");
}

#[test]
fn key_length_is_counted_in_characters() {
    // Fifty two-byte characters: a hundred bytes, but still fifty characters.
    assert!(IdempotencyKey::parse("\u{00e9}".repeat(50)).is_ok());
}

#[test]
fn the_first_caller_wins_the_reservation_and_later_callers_wait() {
    let mut db = Database::new();
    let key = IdempotencyKey::parse("the-one-key".to_string()).unwrap();
    let first = try_processing(&mut db, &key, 9);
    assert!(matches!(first, NextAction::StartProcessing(_)));
    let second = try_processing(&mut db, &key, 9);
    assert!(matches!(second, NextAction::AlreadyStarted));
    // The same key under another user is an independent reservation.
    let other_user = try_processing(&mut db, &key, 10);
    assert!(matches!(other_user, NextAction::StartProcessing(_)));
}

#[test]
fn releasing_an_unknown_or_missing_reservation_does_nothing() {
    let mut db = Database::new();
    let key = IdempotencyKey::parse("nothing-here".to_string()).unwrap();
    assert!(!release_stale_reservation(&mut db, &key, 9));
    assert_eq!(db.idempotency.len(), 0);
}
