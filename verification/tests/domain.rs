//! Domain value objects: token and password validation, token generation.

use newsletter_outbox::domain::{AdminPassword, SubscriptionToken};

#[test]
fn a_13_grapheme_long_password_is_valid() {
    let password = "g\u{0308}".repeat(13);
    assert!(AdminPassword::parse(password).is_ok());
}

#[test]
fn a_13_character_long_password_is_valid() {
    let password = "a".repeat(13);
    assert!(AdminPassword::parse(password).is_ok());
}

#[test]
fn a_12_grapheme_long_password_is_invalid() {
    let password = "g\u{0308}".repeat(12);
    assert!(AdminPassword::parse(password).is_err());
}

#[test]
fn a_12_character_long_password_is_invalid() {
    let password = "a".repeat(12);
    assert!(AdminPassword::parse(password).is_err());
}

#[test]
fn a_25_char_long_token_is_valid() {
    let token = "a".repeat(25);
    assert!(SubscriptionToken::parse(token).is_ok());
}

#[test]
fn a_token_shorter_than_25_char_is_rejected() {
    let token = "a".repeat(24);
    assert!(SubscriptionToken::parse(token).is_err());
}

#[test]
fn a_token_longer_than_25_char_is_rejected() {
    let token = "a".repeat(26);
    assert!(SubscriptionToken::parse(token).is_err());
}

#[test]
fn a_token_that_contains_a_non_alphanumeric_is_rejected() {
    let token = "aZaZaZaZaZaZaZaZaZaZaZaZ/";
    assert!(SubscriptionToken::parse(token.into()).is_err());
}

#[test]
fn token_length_is_counted_in_bytes() {
    // 23 ASCII letters plus one two-byte letter: 25 bytes, 24 characters.
    let mut token = "a".repeat(23);
    token.push('\u{00e9}');
    assert_eq!(token.len(), 25);
    assert!(SubscriptionToken::parse(token).is_ok());
    // The same letters padded to 25 characters overshoot 25 bytes.
    let mut long = "a".repeat(24);
    long.push('\u{00e9}');
    assert!(SubscriptionToken::parse(long).is_err());
}

#[test]
fn a_generated_token_is_a_valid_token() {
    let token = SubscriptionToken::generate();
    let text = token.as_ref().to_string();
    assert_eq!(text.len(), 25);
    assert!(text.chars().all(|c| c.is_ascii_alphanumeric()));
    assert!(SubscriptionToken::parse(text).is_ok());
}

#[test]
fn a_rejected_token_reports_itself() {
    let err = SubscriptionToken::parse("short".to_string()).unwrap_err();
    assert_eq!(err, "short is not a valid subscription token!");
}

#[test]
fn a_short_password_reports_the_policy() {
    let err = AdminPassword::parse("a".repeat(12)).unwrap_err();
    assert_eq!(err, "Passwords must be longer than 12 characters.");
}

#[test]
fn a_parsed_password_exposes_its_secret() {
    let password = AdminPassword::parse("correct horse battery".to_string()).unwrap();
    assert_eq!(password.expose_secret(), "correct horse battery");
}
