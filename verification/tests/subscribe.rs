//! The subscribe and confirm flows, and the string helpers around them.

use newsletter_outbox::newsletters::{flash_messages_html, newsletter_form_page, success_message};
use newsletter_outbox::store::{Database, SubscriberStatus};
use newsletter_outbox::subscriptions::{
    confirmation_link, error_chain_fmt, subscribe, ConfirmationTemplate, StoreTokenError,
    SubscribeError,
};
use newsletter_outbox::subscriptions_confirm::{
    confirm, Parameters, SubscriptionConfirmationError,
};

#[test]
fn subscribing_stores_a_pending_subscriber_with_a_token() {
    let mut db = Database::new();
    let token = subscribe(&mut db, "a@example.com".to_string(), "Ann".to_string(), 77).unwrap();
    assert_eq!(db.subscriptions.len(), 1);
    assert_eq!(db.subscriptions[0].email, "a@example.com");
    assert_eq!(db.subscriptions[0].name, "Ann");
    assert_eq!(db.subscriptions[0].subscribed_at, 77);
    assert!(matches!(db.subscriptions[0].status, SubscriberStatus::PendingConfirmation));
    assert_eq!(db.tokens.len(), 1);
    assert_eq!(db.tokens[0].token, token.as_ref());
    assert_eq!(db.tokens[0].subscriber_id, db.subscriptions[0].id);
}

#[test]
fn subscribing_twice_reuses_the_subscriber_and_the_token() {
    let mut db = Database::new();
    let first = subscribe(&mut db, "a@example.com".to_string(), "Ann".to_string(), 1).unwrap();
    let second = subscribe(&mut db, "a@example.com".to_string(), "Ann".to_string(), 2).unwrap();
    assert_eq!(db.subscriptions.len(), 1);
    assert_eq!(db.tokens.len(), 1);
    assert_eq!(first.as_ref(), second.as_ref());
}

#[test]
fn confirming_a_valid_token_marks_the_subscriber_confirmed() {
    let mut db = Database::new();
    let token = subscribe(&mut db, "a@example.com".to_string(), "Ann".to_string(), 1).unwrap();
    let outcome = confirm(&mut db, Parameters { subscription_token: token.as_ref().to_string() });
    assert!(outcome.is_ok());
    assert!(matches!(db.subscriptions[0].status, SubscriberStatus::Confirmed));
}

#[test]
fn confirming_a_malformed_token_is_a_validation_error() {
    let mut db = Database::new();
    let outcome = confirm(&mut db, Parameters { subscription_token: "short".to_string() });
    match outcome {
        Err(e) => {
            assert!(matches!(e, SubscriptionConfirmationError::ValidationError(_)));
            assert_eq!(e.status_code(), 400);
        },
        Ok(()) => panic!("a malformed token must be rejected"),
    }
}

#[test]
fn confirming_an_unknown_token_is_unauthorized() {
    let mut db = Database::new();
    let unknown = "a".repeat(25);
    let outcome = confirm(&mut db, Parameters { subscription_token: unknown });
    match outcome {
        Err(e) => {
            assert!(matches!(e, SubscriptionConfirmationError::UnauthorizedError(_)));
            assert_eq!(e.status_code(), 401);
        },
        Ok(()) => panic!("an unknown token must be rejected"),
    }
}

#[test]
fn subscribe_error_maps_to_http_statuses() {
    assert_eq!(SubscribeError::ValidationError("bad".to_string()).status_code(), 400);
    assert_eq!(SubscribeError::UnexpectedError("boom".to_string()).status_code(), 500);
}

#[test]
fn store_token_error_describes_itself() {
    assert_eq!(
        StoreTokenError::message(),
        "A database error was encountered while trying to store a subscription token."
    );
}

#[test]
fn the_confirmation_link_embeds_the_token() {
    let mut db = Database::new();
    let token = subscribe(&mut db, "a@example.com".to_string(), "Ann".to_string(), 1).unwrap();
    let link = confirmation_link(&"https://news.example.com".to_string(), &token);
    let template = ConfirmationTemplate { confirmation_link: link };
    assert_eq!(
        template.confirmation_link,
        format!(
            "https://news.example.com/subscriptions/confirm?subscription_token={}",
            token.as_ref()
        )
    );
}

#[test]
fn an_error_chain_is_rendered_outermost_first() {
    let rendered = error_chain_fmt(
        &"publish failed".to_string(),
        &vec!["connection reset".to_string(), "broken pipe".to_string()],
    );
    assert_eq!(
        rendered,
        "publish failed\n\nCaused by:\n\tconnection reset\nCaused by:\n\tbroken pipe\n"
    );
}

#[test]
fn an_error_without_causes_renders_the_message_alone() {
    let rendered = error_chain_fmt(&"boom".to_string(), &Vec::new());
    assert_eq!(rendered, "boom\n\n");
}

#[test]
fn flash_messages_become_italic_paragraphs() {
    let html = flash_messages_html(&vec![
        "Issue accepted".to_string(),
        "Emails on their way".to_string(),
    ]);
    assert_eq!(html, "<p><i>Issue accepted</i></p>\n<p><i>Emails on their way</i></p>\n");
    assert_eq!(flash_messages_html(&Vec::new()), "");
}

#[test]
fn the_newsletter_form_page_embeds_messages_and_key() {
    let page = newsletter_form_page(
        &"<p><i>hi</i></p>\n".to_string(),
        &"key-123".to_string(),
    );
    assert!(page.starts_with("<!DOCTYPE html>"));
    assert!(page.contains("<p><i>hi</i></p>"));
    assert!(page.contains("<input hidden type=\"text\" name=\"idempotency_key\" value=\"key-123\">"));
    assert!(page.ends_with("</html>"));
}

#[test]
fn the_success_message_announces_the_acceptance() {
    assert_eq!(
        success_message(),
        "The newsletter issue has been accepted - emails will go out shortly."
    );
}
