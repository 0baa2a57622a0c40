//! The subscribe flow: record a subscriber as pending confirmation, give
//! them a confirmation token — reusing the stored one on a repeated
//! subscribe — and commit both in one transaction. The confirmation email
//! itself is an outside collaborator; this module computes everything it
//! needs, the link included.

use vstd::prelude::*;
use vstd::string::StringExecFns;
use crate::domain::SubscriptionToken;
use crate::domain::valid_subscription_token;
use crate::store::Database;
use crate::store::SubscriberStatus;
use crate::store::Subscription;
use crate::store::TokenRow;
use crate::store::Transaction;
use crate::store::commit;
use crate::store::has_email;
use crate::store::has_token_for;
use crate::store::has_token_value;

verus! {

/// The fields of a subscribe request.
pub struct FormData {
    pub email: String,
    pub name: String,
}

/// Why a subscribe request failed: the form was invalid, or the store could
/// not take the writes (a token collision on the unique token column) and the
/// whole transaction was rolled back.
#[derive(Debug)]
pub enum SubscribeError {
    ValidationError(String),
    UnexpectedError(String),
}

impl SubscribeError {
    /// The HTTP status such an error maps to: a client error for invalid
    /// input, a server error for everything else.
    pub fn status_code(&self) -> (code: u16)
        ensures
            code == (match self {
                SubscribeError::ValidationError(_) => 400u16,
                SubscribeError::UnexpectedError(_) => 500u16,
            }),
    {
        match self {
            SubscribeError::ValidationError(_) => 400,
            SubscribeError::UnexpectedError(_) => 500,
        }
    }
}

/// The error raised when the store refuses a staged confirmation token.
pub struct StoreTokenError;

impl StoreTokenError {
    /// What this error says when displayed.
    pub fn message() -> (m: String)
        ensures
            m@ == "A database error was encountered while trying to store a subscription token."@,
    {
        String::from_str(
            "A database error was encountered while trying to store a subscription token.",
        )
    }
}

/// The subscriber rows visible inside a transaction: the committed ones and
/// the staged ones after them.
pub open spec fn visible_subscriptions(db: Database, txn: Transaction) -> Seq<Subscription> {
    db.subscriptions@ + txn.new_subscriptions@
}

/// The token rows visible inside a transaction.
pub open spec fn visible_tokens(db: Database, txn: Transaction) -> Seq<TokenRow> {
    db.tokens@ + txn.new_tokens@
}

/// Looks the email up among the subscribers visible to this transaction.
pub fn get_past_subscription(db: &Database, txn: &Transaction, email: &String) -> (r: Option<u64>)
    ensures
        match r {
            Some(id) => exists|i: int|
                0 <= i < visible_subscriptions(*db, *txn).len() && (#[trigger] visible_subscriptions(
                    *db,
                    *txn,
                )[i]).email@ == email@ && visible_subscriptions(*db, *txn)[i].id == id,
            None => !has_email(visible_subscriptions(*db, *txn), email@),
        },
{
    let n = db.subscriptions.len();
    for i in 0..n
        invariant
            n == db.subscriptions@.len(),
            forall|j: int| 0 <= j < i ==> (#[trigger] db.subscriptions@[j]).email@ != email@,
    {
        if db.subscriptions[i].email.eq(email) {
            proof {
                assert(visible_subscriptions(*db, *txn)[i as int] == db.subscriptions@[i as int]);
            }
            return Some(db.subscriptions[i].id);
        }
    }
    let m = txn.new_subscriptions.len();
    for i in 0..m
        invariant
            n == db.subscriptions@.len(),
            m == txn.new_subscriptions@.len(),
            forall|j: int| 0 <= j < n ==> (#[trigger] db.subscriptions@[j]).email@ != email@,
            forall|j: int| 0 <= j < i ==> (#[trigger] txn.new_subscriptions@[j]).email@ != email@,
    {
        if txn.new_subscriptions[i].email.eq(email) {
            proof {
                assert(visible_subscriptions(*db, *txn)[n + i] == txn.new_subscriptions@[i as int]);
            }
            return Some(txn.new_subscriptions[i].id);
        }
    }
    proof {
        assert forall|i: int| 0 <= i < visible_subscriptions(*db, *txn).len() implies (
        #[trigger] visible_subscriptions(*db, *txn)[i]).email@ != email@ by {
            if i < n {
                assert(visible_subscriptions(*db, *txn)[i] == db.subscriptions@[i]);
            } else {
                assert(visible_subscriptions(*db, *txn)[i] == txn.new_subscriptions@[i - n]);
            }
        }
    }
    None
}

/// Stages a new subscriber, pending confirmation, under the next free id.
pub fn insert_subscriber(
    txn: &mut Transaction,
    db: &Database,
    email: &String,
    name: &String,
    now: u64,
) -> (id: u64)
    requires
        db.next_subscriber_id + old(txn).new_subscriptions@.len() < u64::MAX,
    ensures
        id == db.next_subscriber_id + old(txn).new_subscriptions@.len(),
        final(txn).new_subscriptions@.len() == old(txn).new_subscriptions@.len() + 1,
        final(txn).new_subscriptions@.drop_last() == old(txn).new_subscriptions@,
        final(txn).new_subscriptions@.last().id == id,
        final(txn).new_subscriptions@.last().email@ == email@,
        final(txn).new_subscriptions@.last().name@ == name@,
        final(txn).new_subscriptions@.last().subscribed_at == now,
        final(txn).new_subscriptions@.last().status is PendingConfirmation,
        final(txn).reservation == old(txn).reservation,
        final(txn).new_tokens == old(txn).new_tokens,
        final(txn).new_issue == old(txn).new_issue,
        final(txn).new_tasks == old(txn).new_tasks,
        final(txn).response == old(txn).response,
{
    let offset = txn.new_subscriptions.len() as u64;
    let id = db.next_subscriber_id + offset;
    txn.new_subscriptions.push(
        Subscription {
            id,
            email: String::from_str(email.as_str()),
            name: String::from_str(name.as_str()),
            subscribed_at: now,
            status: SubscriberStatus::PendingConfirmation,
        },
    );
    proof {
        assert(txn.new_subscriptions@.drop_last() =~= old(txn).new_subscriptions@);
    }
    id
}

/// Looks up the stored confirmation token of a subscriber, among the rows
/// visible to this transaction.
pub fn get_past_subscription_token(db: &Database, txn: &Transaction, subscriber_id: u64) -> (r:
    Option<SubscriptionToken>)
    requires
        db.wf(),
        forall|i: int|
            0 <= i < txn.new_tokens@.len() ==> valid_subscription_token(
                (#[trigger] txn.new_tokens@[i]).token@,
            ),
    ensures
        match r {
            Some(t) => exists|i: int|
                0 <= i < visible_tokens(*db, *txn).len() && (#[trigger] visible_tokens(
                    *db,
                    *txn,
                )[i]).subscriber_id == subscriber_id && visible_tokens(*db, *txn)[i].token@ == t@,
            None => !has_token_for(visible_tokens(*db, *txn), subscriber_id),
        },
{
    let n = db.tokens.len();
    for i in 0..n
        invariant
            db.wf(),
            n == db.tokens@.len(),
            forall|j: int| 0 <= j < i ==> (#[trigger] db.tokens@[j]).subscriber_id != subscriber_id,
    {
        if db.tokens[i].subscriber_id == subscriber_id {
            let stored = String::from_str(db.tokens[i].token.as_str());
            match SubscriptionToken::parse(stored) {
                Ok(t) => {
                    proof {
                        assert(visible_tokens(*db, *txn)[i as int] == db.tokens@[i as int]);
                    }
                    return Some(t);
                },
                Err(_) => {
                    proof {
                        assert(valid_subscription_token(db.tokens@[i as int].token@));
                        assert(false);
                    }
                },
            }
        }
    }
    let m = txn.new_tokens.len();
    for i in 0..m
        invariant
            db.wf(),
            n == db.tokens@.len(),
            m == txn.new_tokens@.len(),
            forall|j: int|
                0 <= j < txn.new_tokens@.len() ==> valid_subscription_token(
                    (#[trigger] txn.new_tokens@[j]).token@,
                ),
            forall|j: int| 0 <= j < n ==> (#[trigger] db.tokens@[j]).subscriber_id != subscriber_id,
            forall|j: int|
                0 <= j < i ==> (#[trigger] txn.new_tokens@[j]).subscriber_id != subscriber_id,
    {
        if txn.new_tokens[i].subscriber_id == subscriber_id {
            let stored = String::from_str(txn.new_tokens[i].token.as_str());
            match SubscriptionToken::parse(stored) {
                Ok(t) => {
                    proof {
                        assert(visible_tokens(*db, *txn)[n + i] == txn.new_tokens@[i as int]);
                    }
                    return Some(t);
                },
                Err(_) => {
                    proof {
                        assert(false);
                    }
                },
            }
        }
    }
    proof {
        assert forall|i: int| 0 <= i < visible_tokens(*db, *txn).len() implies (
        #[trigger] visible_tokens(*db, *txn)[i]).subscriber_id != subscriber_id by {
            if i < n {
                assert(visible_tokens(*db, *txn)[i] == db.tokens@[i]);
            } else {
                assert(visible_tokens(*db, *txn)[i] == txn.new_tokens@[i - n]);
            }
        }
    }
    None
}

/// Stages the confirmation token for a subscriber. The token column and the
/// subscriber column are both unique: a colliding insert is refused, and the
/// transaction is then meant to be rolled back by the caller.
pub fn store_token(
    txn: &mut Transaction,
    db: &Database,
    subscriber_id: u64,
    subscription_token: &SubscriptionToken,
) -> (r: Result<(), StoreTokenError>)
    requires
        valid_subscription_token(subscription_token@),
    ensures
        r is Ok <==> (!has_token_value(visible_tokens(*db, *old(txn)), subscription_token@)
            && !has_token_for(visible_tokens(*db, *old(txn)), subscriber_id)),
        r is Ok ==> {
            &&& final(txn).new_tokens@.len() == old(txn).new_tokens@.len() + 1
            &&& final(txn).new_tokens@.drop_last() == old(txn).new_tokens@
            &&& final(txn).new_tokens@.last().token@ == subscription_token@
            &&& final(txn).new_tokens@.last().subscriber_id == subscriber_id
            &&& final(txn).reservation == old(txn).reservation
            &&& final(txn).new_subscriptions == old(txn).new_subscriptions
            &&& final(txn).new_issue == old(txn).new_issue
            &&& final(txn).new_tasks == old(txn).new_tasks
            &&& final(txn).response == old(txn).response
        },
        r is Err ==> *final(txn) == *old(txn),
{
    if contains_token(&db.tokens, &txn.new_tokens, subscription_token, subscriber_id) {
        return Err(StoreTokenError);
    }
    txn.new_tokens.push(
        TokenRow {
            token: String::from_str(subscription_token.as_ref()),
            subscriber_id,
        },
    );
    proof {
        assert(txn.new_tokens@.drop_last() =~= old(txn).new_tokens@);
    }
    Ok(())
}

/// True when the token value or the subscriber already has a row, committed
/// or staged.
fn contains_token(
    committed: &Vec<TokenRow>,
    staged: &Vec<TokenRow>,
    subscription_token: &SubscriptionToken,
    subscriber_id: u64,
) -> (r: bool)
    ensures
        r == (has_token_value(committed@ + staged@, subscription_token@) || has_token_for(
            committed@ + staged@,
            subscriber_id,
        )),
{
    let ghost rows = committed@ + staged@;
    let n = committed.len();
    for i in 0..n
        invariant
            n == committed@.len(),
            rows == committed@ + staged@,
            forall|j: int|
                0 <= j < i ==> (#[trigger] rows[j]).token@ != subscription_token@ && rows[j].subscriber_id
                    != subscriber_id,
    {
        proof {
            assert(rows[i as int] == committed@[i as int]);
        }
        if committed[i].subscriber_id == subscriber_id {
            return true;
        }
        if committed[i].token.eq(subscription_token.as_string()) {
            return true;
        }
    }
    let m = staged.len();
    for i in 0..m
        invariant
            n == committed@.len(),
            m == staged@.len(),
            rows == committed@ + staged@,
            forall|j: int|
                0 <= j < n + i ==> (#[trigger] rows[j]).token@ != subscription_token@
                    && rows[j].subscriber_id != subscriber_id,
    {
        proof {
            assert(rows[n + i] == staged@[i as int]);
        }
        if staged[i].subscriber_id == subscriber_id {
            return true;
        }
        if staged[i].token.eq(subscription_token.as_string()) {
            return true;
        }
    }
    false
}

/// True when, in this state, the given email's subscriber has the given
/// token value stored for them.
pub open spec fn token_stored_for_email(db: Database, email: Seq<char>, token: Seq<char>) -> bool {
    exists|i: int, j: int|
        {
            &&& 0 <= i < db.subscriptions@.len()
            &&& 0 <= j < db.tokens@.len()
            &&& (#[trigger] db.subscriptions@[i]).email@ == email
            &&& (#[trigger] db.tokens@[j]).subscriber_id == db.subscriptions@[i].id
            &&& db.tokens@[j].token@ == token
        }
}

/// True when, in this state, the given email's subscriber has some token
/// stored for them.
pub open spec fn email_has_stored_token(db: Database, email: Seq<char>) -> bool {
    exists|i: int, j: int|
        {
            &&& 0 <= i < db.subscriptions@.len()
            &&& 0 <= j < db.tokens@.len()
            &&& (#[trigger] db.subscriptions@[i]).email@ == email
            &&& (#[trigger] db.tokens@[j]).subscriber_id == db.subscriptions@[i].id
        }
}

/// What `subscribe` does. On success the returned token is valid and stored
/// for the subscriber carrying the given email: a first-time email gets a
/// fresh pending subscriber row and a freshly stored token, a repeated one
/// reuses its row and — if one exists — its token, so subscribing is
/// idempotent per email. On failure (the freshly drawn token collided with a
/// stored one) the transaction rolled back and nothing changed.
pub open spec fn subscribe_post(
    db0: Database,
    db1: Database,
    email: Seq<char>,
    name: Seq<char>,
    now: u64,
    r: Result<SubscriptionToken, SubscribeError>,
) -> bool {
    match r {
        Ok(token) => {
            &&& valid_subscription_token(token@)
            &&& token_stored_for_email(db1, email, token@)
            &&& db1.issues@ == db0.issues@
            &&& db1.tasks@ == db0.tasks@
            &&& db1.idempotency@ == db0.idempotency@
            &&& db1.next_issue_id == db0.next_issue_id
            &&& if has_email(db0.subscriptions@, email) {
                &&& db1.subscriptions@ == db0.subscriptions@
                &&& db1.next_subscriber_id == db0.next_subscriber_id
                &&& db0.tokens@.is_prefix_of(db1.tokens@)
                &&& db1.tokens@.len() <= db0.tokens@.len() + 1
            } else {
                &&& db1.subscriptions@.len() == db0.subscriptions@.len() + 1
                &&& db1.subscriptions@.drop_last() == db0.subscriptions@
                &&& db1.subscriptions@.last().id == db0.next_subscriber_id
                &&& db1.subscriptions@.last().email@ == email
                &&& db1.subscriptions@.last().name@ == name
                &&& db1.subscriptions@.last().subscribed_at == now
                &&& db1.subscriptions@.last().status is PendingConfirmation
                &&& db1.next_subscriber_id == db0.next_subscriber_id + 1
                &&& db1.tokens@.len() == db0.tokens@.len() + 1
                &&& db1.tokens@.drop_last() == db0.tokens@
                &&& db1.tokens@.last().subscriber_id == db0.next_subscriber_id
                &&& db1.tokens@.last().token@ == token@
            }
        },
        Err(e) => {
            &&& e is UnexpectedError
            &&& db1 == db0
            // Only a collision of the freshly drawn token can fail: an email
            // whose subscriber already has a stored token is always served.
            &&& !email_has_stored_token(db0, email)
        },
    }
}

/// Subscribes an email address: finds or stages the subscriber row, finds or
/// stages a confirmation token, and commits both together. The caller then
/// mails the token; the subscriber stays pending until they confirm.
pub fn subscribe(db: &mut Database, email: String, name: String, now: u64) -> (r: Result<
    SubscriptionToken,
    SubscribeError,
>)
    requires
        old(db).wf(),
        old(db).next_subscriber_id < u64::MAX,
    ensures
        final(db).wf(),
        subscribe_post(*old(db), *final(db), email@, name@, now, r),
{
    let ghost db0 = *db;
    let mut txn = Transaction::begin();
    let ghost txn0 = txn;
    let subscriber_id = match get_past_subscription(&*db, &txn, &email) {
        Some(id) => id,
        None => insert_subscriber(&mut txn, &*db, &email, &name, now),
    };
    let ghost txn1 = txn;
    let subscription_token = match get_past_subscription_token(&*db, &txn, subscriber_id) {
        Some(token) => token,
        None => {
            let subscription_token = SubscriptionToken::generate();
            match store_token(&mut txn, &*db, subscriber_id, &subscription_token) {
                Ok(()) => subscription_token,
                Err(_) => {
                    proof {
                        if email_has_stored_token(db0, email@) {
                            let (i, j): (int, int) = choose|i: int, j: int|
                                {
                                    &&& 0 <= i < db0.subscriptions@.len()
                                    &&& 0 <= j < db0.tokens@.len()
                                    &&& (#[trigger] db0.subscriptions@[i]).email@ == email@
                                    &&& (#[trigger] db0.tokens@[j]).subscriber_id
                                        == db0.subscriptions@[i].id
                                };
                            assert(visible_subscriptions(db0, txn0) =~= db0.subscriptions@);
                            assert(visible_tokens(db0, txn1) =~= db0.tokens@);
                            // The email was found, so its unique row is the
                            // one the lookup returned, and its stored token
                            // contradicts the failed token lookup.
                            assert(has_email(db0.subscriptions@, email@));
                            let i0 = choose|k: int|
                                0 <= k < db0.subscriptions@.len() && (
                                #[trigger] db0.subscriptions@[k]).email@ == email@
                                    && db0.subscriptions@[k].id == subscriber_id;
                            assert(i == i0);
                            assert(has_token_for(db0.tokens@, subscriber_id));
                        }
                    }
                    return Err(SubscribeError::UnexpectedError(StoreTokenError::message()));
                },
            }
        },
    };
    let ghost txn_g = txn;
    commit(db, txn);
    proof {
        let subs1 = db.subscriptions@;
        let toks1 = db.tokens@;
        assert(visible_subscriptions(db0, txn0) =~= db0.subscriptions@);
        // Locate the subscriber row carrying this email in the committed state.
        let si: int = if txn_g.new_subscriptions@.len() > 0 {
            db0.subscriptions@.len() as int
        } else {
            choose|i: int|
                0 <= i < db0.subscriptions@.len() && (#[trigger] db0.subscriptions@[i]).email@
                    == email@ && db0.subscriptions@[i].id == subscriber_id
        };
        if txn_g.new_subscriptions@.len() > 0 {
            assert(subs1[si] == txn_g.new_subscriptions@[0]);
        } else {
            assert(subs1[si] == db0.subscriptions@[si]);
        }
        assert(0 <= si < subs1.len() && subs1[si].email@ == email@ && subs1[si].id
            == subscriber_id);
        // Locate the token row stored for that subscriber. A freshly staged
        // subscriber cannot already have a committed token: stored tokens
        // only ever point below the id counter.
        assert(visible_tokens(db0, txn1) =~= db0.tokens@);
        if txn_g.new_subscriptions@.len() > 0 {
            assert(subscriber_id == db0.next_subscriber_id);
            assert(txn_g.new_tokens@.len() > 0) by {
                if txn_g.new_tokens@.len() == 0 {
                    let w = choose|j: int|
                        0 <= j < db0.tokens@.len() && (#[trigger] db0.tokens@[j]).subscriber_id
                            == subscriber_id && db0.tokens@[j].token@ == subscription_token@;
                    assert(db0.tokens@[w].subscriber_id < db0.next_subscriber_id);
                }
            }
        }
        let tj: int = if txn_g.new_tokens@.len() > 0 {
            db0.tokens@.len() as int
        } else {
            choose|j: int|
                0 <= j < db0.tokens@.len() && (#[trigger] db0.tokens@[j]).subscriber_id
                    == subscriber_id && db0.tokens@[j].token@ == subscription_token@
        };
        if txn_g.new_tokens@.len() > 0 {
            assert(toks1[tj] == txn_g.new_tokens@[0]);
        } else {
            assert(toks1[tj] == db0.tokens@[tj]);
        }
        assert(0 <= tj < toks1.len() && toks1[tj].subscriber_id == subscriber_id
            && toks1[tj].token@ == subscription_token@);
        assert(token_stored_for_email(*db, email@, subscription_token@));
        if has_email(db0.subscriptions@, email@) {
            assert(db.subscriptions@ =~= db0.subscriptions@);
            assert(db.tokens@.take(db0.tokens@.len() as int) =~= db0.tokens@);
        } else {
            assert(db.subscriptions@.drop_last() =~= db0.subscriptions@);
            if txn_g.new_tokens@.len() > 0 {
                assert(db.tokens@.drop_last() =~= db0.tokens@);
            }
        }
    }
    Ok(subscription_token)
}

/// The confirmation link mailed to a new subscriber.
pub fn confirmation_link(base_url: &String, subscription_token: &SubscriptionToken) -> (link:
    String)
    ensures
        link@ == base_url@ + "/subscriptions/confirm?subscription_token="@ + subscription_token@,
{
    let mut link = String::from_str(base_url.as_str());
    link.append("/subscriptions/confirm?subscription_token=");
    link.append(subscription_token.as_ref());
    link
}

/// The data the confirmation-email template is filled with.
pub struct ConfirmationTemplate {
    pub confirmation_link: String,
}

/// The text an error and its chain of causes are displayed as: the message,
/// a blank line, then one "Caused by" line per cause.
pub open spec fn chain_text(message: Seq<char>, causes: Seq<Seq<char>>) -> Seq<char>
    decreases causes.len(),
{
    if causes.len() == 0 {
        message + "\n\n"@
    } else {
        chain_text(message, causes.drop_last()) + "Caused by:\n\t"@ + causes.last() + "\n"@
    }
}

/// Renders an error message and its chain of causes, outermost first.
pub fn error_chain_fmt(message: &String, causes: &Vec<String>) -> (out: String)
    ensures
        out@ == chain_text(message@, causes@.map_values(|c: String| c@)),
{
    let ghost cause_views = causes@.map_values(|c: String| c@);
    let mut out = String::from_str(message.as_str());
    out.append("\n\n");
    let n = causes.len();
    for i in 0..n
        invariant
            n == causes@.len(),
            cause_views == causes@.map_values(|c: String| c@),
            out@ == chain_text(message@, cause_views.take(i as int)),
    {
        out.append("Caused by:\n\t");
        out.append(causes[i].as_str());
        out.append("\n");
        proof {
            assert(cause_views.take(i as int + 1).drop_last() =~= cause_views.take(i as int));
            assert(cause_views.take(i as int + 1).last() == cause_views[i as int]);
            assert(out@ =~= chain_text(message@, cause_views.take(i as int + 1)));
        }
    }
    proof {
        assert(cause_views.take(n as int) =~= cause_views);
    }
    out
}

} // verus!
