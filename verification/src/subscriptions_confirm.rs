//! Confirming a subscription: the emailed token is validated, looked up, and
//! its subscriber marked confirmed — from then on they receive newsletters.

use vstd::prelude::*;
use vstd::string::StringExecFns;
use crate::domain::SubscriptionToken;
use crate::domain::valid_subscription_token;
use crate::store::Database;
use crate::store::SubscriberStatus;
use crate::store::has_token_value;

verus! {

/// The query parameters of a confirmation request.
pub struct Parameters {
    pub subscription_token: String,
}

/// Why a confirmation request failed: the token was malformed, or it is not
/// known to the store, or the store itself failed.
#[derive(Debug)]
pub enum SubscriptionConfirmationError {
    ValidationError(String),
    UnauthorizedError(String),
    UnexpectedError(String),
}

impl SubscriptionConfirmationError {
    /// The HTTP status such an error maps to: a client error for a malformed
    /// token, unauthorized for an unknown one, a server error otherwise.
    pub fn status_code(&self) -> (code: u16)
        ensures
            code == (match self {
                SubscriptionConfirmationError::ValidationError(_) => 400u16,
                SubscriptionConfirmationError::UnauthorizedError(_) => 401u16,
                SubscriptionConfirmationError::UnexpectedError(_) => 500u16,
            }),
    {
        match self {
            SubscriptionConfirmationError::ValidationError(_) => 400,
            SubscriptionConfirmationError::UnauthorizedError(_) => 401,
            SubscriptionConfirmationError::UnexpectedError(_) => 500,
        }
    }
}

/// Looks up which subscriber the stored token belongs to.
pub fn get_subscriber_id_from_token(db: &Database, subscription_token: &SubscriptionToken) -> (r:
    Option<u64>)
    ensures
        match r {
            Some(id) => exists|i: int|
                0 <= i < db.tokens@.len() && (#[trigger] db.tokens@[i]).token@
                    == subscription_token@ && db.tokens@[i].subscriber_id == id,
            None => !has_token_value(db.tokens@, subscription_token@),
        },
{
    let n = db.tokens.len();
    for i in 0..n
        invariant
            n == db.tokens@.len(),
            forall|j: int| 0 <= j < i ==> (#[trigger] db.tokens@[j]).token@ != subscription_token@,
    {
        if db.tokens[i].token.eq(subscription_token.as_string()) {
            return Some(db.tokens[i].subscriber_id);
        }
    }
    None
}

/// What `confirm_subscriber` does: the rows carrying the given id — at most
/// one, by well-formedness — are marked confirmed with everything else about
/// them kept; every other row, and every other table, stays untouched.
pub open spec fn confirm_subscriber_post(db0: Database, db1: Database, subscriber_id: u64) -> bool {
    &&& db1.tokens == db0.tokens
    &&& db1.issues == db0.issues
    &&& db1.tasks == db0.tasks
    &&& db1.idempotency == db0.idempotency
    &&& db1.next_subscriber_id == db0.next_subscriber_id
    &&& db1.next_issue_id == db0.next_issue_id
    &&& db1.subscriptions@.len() == db0.subscriptions@.len()
    &&& forall|i: int|
        0 <= i < db0.subscriptions@.len() && (#[trigger] db0.subscriptions@[i]).id != subscriber_id
            ==> db1.subscriptions@[i] == db0.subscriptions@[i]
    &&& forall|i: int|
        0 <= i < db0.subscriptions@.len() && (#[trigger] db0.subscriptions@[i]).id
            == subscriber_id ==> {
            &&& db1.subscriptions@[i].id == db0.subscriptions@[i].id
            &&& db1.subscriptions@[i].email == db0.subscriptions@[i].email
            &&& db1.subscriptions@[i].name == db0.subscriptions@[i].name
            &&& db1.subscriptions@[i].subscribed_at == db0.subscriptions@[i].subscribed_at
            &&& db1.subscriptions@[i].status is Confirmed
        }
}

/// Marks the subscriber with the given id as confirmed. An id no row carries
/// leaves the store unchanged, which is not an error.
pub fn confirm_subscriber(db: &mut Database, subscriber_id: u64)
    requires
        old(db).wf(),
    ensures
        final(db).wf(),
        confirm_subscriber_post(*old(db), *final(db), subscriber_id),
{
    let ghost db0 = *db;
    let n = db.subscriptions.len();
    for i in 0..n
        invariant
            n == db.subscriptions@.len(),
            n == db0.subscriptions@.len(),
            db.tokens == db0.tokens,
            db.issues == db0.issues,
            db.tasks == db0.tasks,
            db.idempotency == db0.idempotency,
            db.next_subscriber_id == db0.next_subscriber_id,
            db.next_issue_id == db0.next_issue_id,
            forall|j: int|
                0 <= j < n && ((#[trigger] db0.subscriptions@[j]).id != subscriber_id || j >= i)
                    ==> db.subscriptions@[j] == db0.subscriptions@[j],
            forall|j: int|
                0 <= j < i && (#[trigger] db0.subscriptions@[j]).id == subscriber_id ==> {
                    &&& db.subscriptions@[j].id == db0.subscriptions@[j].id
                    &&& db.subscriptions@[j].email == db0.subscriptions@[j].email
                    &&& db.subscriptions@[j].name == db0.subscriptions@[j].name
                    &&& db.subscriptions@[j].subscribed_at == db0.subscriptions@[j].subscribed_at
                    &&& db.subscriptions@[j].status is Confirmed
                },
    {
        if db.subscriptions[i].id == subscriber_id {
            db.subscriptions[i].status = SubscriberStatus::Confirmed;
        }
    }
    proof {
        assert forall|i: int, j: int| 0 <= i < j < db.subscriptions@.len() implies {
            &&& (#[trigger] db.subscriptions@[i]).id != (#[trigger] db.subscriptions@[j]).id
            &&& db.subscriptions@[i].email@ != db.subscriptions@[j].email@
        } by {
            assert(db.subscriptions@[i].id == db0.subscriptions@[i].id && db.subscriptions@[i].email
                == db0.subscriptions@[i].email);
            assert(db.subscriptions@[j].id == db0.subscriptions@[j].id && db.subscriptions@[j].email
                == db0.subscriptions@[j].email);
        }
        assert forall|i: int| 0 <= i < db.subscriptions@.len() implies (
        #[trigger] db.subscriptions@[i]).id < db.next_subscriber_id by {
            assert(db.subscriptions@[i].id == db0.subscriptions@[i].id);
        }
    }
}

/// What `confirm` does. A malformed token is rejected before the store is
/// read; a well-formed but unknown one is unauthorized; a known one marks
/// exactly its subscriber confirmed. Nothing else ever changes, and the
/// store itself never fails.
pub open spec fn confirm_post(
    db0: Database,
    db1: Database,
    token_text: Seq<char>,
    r: Result<(), SubscriptionConfirmationError>,
) -> bool {
    match r {
        Ok(()) => {
            &&& valid_subscription_token(token_text)
            &&& has_token_value(db0.tokens@, token_text)
            &&& exists|i: int|
                0 <= i < db0.tokens@.len() && (#[trigger] db0.tokens@[i]).token@ == token_text
                    && confirm_subscriber_post(db0, db1, db0.tokens@[i].subscriber_id)
        },
        Err(e) => {
            &&& db1 == db0
            &&& match e {
                SubscriptionConfirmationError::ValidationError(_) => !valid_subscription_token(
                    token_text,
                ),
                SubscriptionConfirmationError::UnauthorizedError(_) => {
                    &&& valid_subscription_token(token_text)
                    &&& !has_token_value(db0.tokens@, token_text)
                },
                SubscriptionConfirmationError::UnexpectedError(_) => false,
            }
        },
    }
}

/// Confirms a pending subscriber from the token they presented.
pub fn confirm(db: &mut Database, parameters: Parameters) -> (r: Result<
    (),
    SubscriptionConfirmationError,
>)
    requires
        old(db).wf(),
    ensures
        final(db).wf(),
        confirm_post(*old(db), *final(db), parameters.subscription_token@, r),
{
    let subscription_token = match SubscriptionToken::parse(parameters.subscription_token) {
        Ok(t) => t,
        Err(e) => {
            return Err(SubscriptionConfirmationError::ValidationError(e));
        },
    };
    let id = match get_subscriber_id_from_token(&*db, &subscription_token) {
        Some(id) => id,
        None => {
            return Err(
                SubscriptionConfirmationError::UnauthorizedError(
                    String::from_str("Failed to find token in database."),
                ),
            );
        },
    };
    confirm_subscriber(db, id);
    Ok(())
}

} // verus!
