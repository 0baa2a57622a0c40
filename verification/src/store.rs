//! The persistent ground truth: subscribers, confirmation tokens, newsletter
//! issues, the delivery outbox and the idempotency records, together with the
//! transaction type whose commit is the single atomic point at which staged
//! writes become visible.

use vstd::prelude::*;
use crate::domain::valid_subscription_token;
use crate::idempotency::IdempotencyKey;
use crate::idempotency::valid_idempotency_key;
use crate::response::HttpResponse;

verus! {

/// Where a subscriber stands in the double opt-in flow.
#[derive(Clone, Copy, PartialEq, Eq, Structural)]
pub enum SubscriberStatus {
    PendingConfirmation,
    Confirmed,
}

/// One subscriber row.
pub struct Subscription {
    pub id: u64,
    pub email: String,
    pub name: String,
    pub subscribed_at: u64,
    pub status: SubscriberStatus,
}

/// One stored confirmation token, tied to the subscriber it was mailed to.
pub struct TokenRow {
    pub token: String,
    pub subscriber_id: u64,
}

/// One published newsletter issue. Immutable once committed.
pub struct NewsletterIssue {
    pub id: u64,
    pub title: String,
    pub text_content: String,
    pub html_content: String,
    pub published_at: u64,
}

/// Where a delivery task stands. `Delivered` and `FailedPermanently` are
/// terminal: no operation ever moves a task out of them.
#[derive(Clone, Copy, PartialEq, Eq, Structural)]
pub enum TaskStatus {
    Pending,
    InProgress,
    Delivered,
    FailedPermanently,
}

/// One staged delivery: the outbox row saying that the given issue is owed to
/// the given email address. Identified by the (issue, email) pair; never
/// deleted, so delivery completeness stays reconstructable.
pub struct DeliveryTask {
    pub issue_id: u64,
    pub email: String,
    pub status: TaskStatus,
    pub attempts: u64,
    pub last_error: Option<String>,
    pub claimed_at: u64,
    pub next_retry_at: u64,
}

/// The mathematical content of a delivery task.
#[verifier::ext_equal]
pub struct TaskModel {
    pub issue_id: u64,
    pub email: Seq<char>,
    pub status: TaskStatus,
    pub attempts: u64,
    pub last_error: Option<Seq<char>>,
    pub claimed_at: u64,
    pub next_retry_at: u64,
}

impl View for DeliveryTask {
    type V = TaskModel;

    open spec fn view(&self) -> TaskModel {
        TaskModel {
            issue_id: self.issue_id,
            email: self.email@,
            status: self.status,
            attempts: self.attempts,
            last_error: match self.last_error {
                Some(e) => Some(e@),
                None => None,
            },
            claimed_at: self.claimed_at,
            next_retry_at: self.next_retry_at,
        }
    }
}

/// The content of a whole outbox, row by row.
pub open spec fn task_models(tasks: Seq<DeliveryTask>) -> Seq<TaskModel> {
    tasks.map_values(|t: DeliveryTask| t@)
}

/// A just-staged delivery task: owed to the given email for the given issue,
/// not yet attempted.
pub open spec fn pending_task(issue_id: u64, email: Seq<char>) -> TaskModel {
    TaskModel {
        issue_id,
        email,
        status: TaskStatus::Pending,
        attempts: 0,
        last_error: None,
        claimed_at: 0,
        next_retry_at: 0,
    }
}

/// True when the outbox content already holds the (issue, email) pair.
pub open spec fn model_has_task(tasks: Seq<TaskModel>, issue_id: u64, email: Seq<char>) -> bool {
    exists|i: int| 0 <= i < tasks.len() && tasks[i].issue_id == issue_id && tasks[i].email == email
}

/// Mapping an outbox to its content distributes over concatenation.
pub proof fn lemma_task_models_add(a: Seq<DeliveryTask>, b: Seq<DeliveryTask>)
    ensures
        task_models(a + b) == task_models(a) + task_models(b),
{
    assert(task_models(a + b) =~= task_models(a) + task_models(b));
}

/// The lifecycle of an idempotency record: reserved by the winner of the
/// single-winner race, then completed with the response that every replay
/// returns. A completed record is never changed again.
pub enum RecordState {
    Started,
    Completed(HttpResponse),
}

/// One idempotency record, uniquely identified by (user, key).
pub struct IdempotencyRecord {
    pub user_id: u64,
    pub key: String,
    pub state: RecordState,
}

/// True when the record belongs to the given user and key.
pub open spec fn record_matches(r: IdempotencyRecord, user_id: u64, key: Seq<char>) -> bool {
    r.user_id == user_id && r.key@ == key
}

/// True when some record for (user, key) exists.
pub open spec fn has_record(rows: Seq<IdempotencyRecord>, user_id: u64, key: Seq<char>) -> bool {
    exists|i: int| 0 <= i < rows.len() && record_matches(rows[i], user_id, key)
}

/// The position of the record for (user, key); meaningful only when
/// `has_record` holds (and then unique, by well-formedness).
pub open spec fn record_index(rows: Seq<IdempotencyRecord>, user_id: u64, key: Seq<char>) -> int {
    choose|i: int| 0 <= i < rows.len() && record_matches(rows[i], user_id, key)
}

/// The state of the record for (user, key); meaningful only when `has_record`
/// holds.
pub open spec fn record_state(rows: Seq<IdempotencyRecord>, user_id: u64, key: Seq<char>) -> RecordState {
    rows[record_index(rows, user_id, key)].state
}

/// True when some subscriber has the given email address.
pub open spec fn has_email(subs: Seq<Subscription>, email: Seq<char>) -> bool {
    exists|i: int| 0 <= i < subs.len() && subs[i].email@ == email
}

/// True when some stored token has the given value.
pub open spec fn has_token_value(tokens: Seq<TokenRow>, value: Seq<char>) -> bool {
    exists|i: int| 0 <= i < tokens.len() && tokens[i].token@ == value
}

/// True when the given subscriber already has a stored token.
pub open spec fn has_token_for(tokens: Seq<TokenRow>, subscriber_id: u64) -> bool {
    exists|i: int| 0 <= i < tokens.len() && tokens[i].subscriber_id == subscriber_id
}

/// True when the outbox already holds the (issue, email) pair.
pub open spec fn has_task(tasks: Seq<DeliveryTask>, issue_id: u64, email: Seq<char>) -> bool {
    exists|i: int| 0 <= i < tasks.len() && tasks[i].issue_id == issue_id && tasks[i].email@ == email
}

/// The shared, persistent state. The database is the only synchronization
/// point between the request handlers and the delivery workers.
pub struct Database {
    pub subscriptions: Vec<Subscription>,
    pub tokens: Vec<TokenRow>,
    pub issues: Vec<NewsletterIssue>,
    pub tasks: Vec<DeliveryTask>,
    pub idempotency: Vec<IdempotencyRecord>,
    pub next_subscriber_id: u64,
    pub next_issue_id: u64,
}

impl Database {
    /// The integrity constraints every committed state satisfies: unique
    /// subscriber ids and emails, unique token values and at most one token
    /// per subscriber, unique issue ids drawn below the id counter, unique
    /// (issue, email) delivery pairs, and at most one idempotency record per
    /// (user, key), every stored key and token being syntactically valid.
    pub open spec fn wf(self) -> bool {
        &&& forall|i: int, j: int|
            0 <= i < j < self.subscriptions@.len() ==> {
                &&& (#[trigger] self.subscriptions@[i]).id != (#[trigger] self.subscriptions@[j]).id
                &&& self.subscriptions@[i].email@ != self.subscriptions@[j].email@
            }
        &&& forall|i: int|
            0 <= i < self.subscriptions@.len() ==> (#[trigger] self.subscriptions@[i]).id
                < self.next_subscriber_id
        &&& forall|i: int, j: int|
            0 <= i < j < self.tokens@.len() ==> {
                &&& (#[trigger] self.tokens@[i]).token@ != (#[trigger] self.tokens@[j]).token@
                &&& self.tokens@[i].subscriber_id != self.tokens@[j].subscriber_id
            }
        &&& forall|i: int|
            0 <= i < self.tokens@.len() ==> valid_subscription_token(
                (#[trigger] self.tokens@[i]).token@,
            )
        &&& forall|i: int|
            0 <= i < self.tokens@.len() ==> (#[trigger] self.tokens@[i]).subscriber_id
                < self.next_subscriber_id
        &&& forall|i: int, j: int|
            0 <= i < j < self.issues@.len() ==> (#[trigger] self.issues@[i]).id
                != (#[trigger] self.issues@[j]).id
        &&& forall|i: int|
            0 <= i < self.issues@.len() ==> (#[trigger] self.issues@[i]).id < self.next_issue_id
        &&& forall|i: int|
            0 <= i < self.tasks@.len() ==> (#[trigger] self.tasks@[i]).issue_id
                < self.next_issue_id
        &&& forall|i: int, j: int|
            0 <= i < j < self.tasks@.len() ==> !((#[trigger] self.tasks@[i]).issue_id
                == (#[trigger] self.tasks@[j]).issue_id && self.tasks@[i].email@
                == self.tasks@[j].email@)
        &&& forall|i: int, j: int|
            0 <= i < j < self.idempotency@.len() ==> !((#[trigger] self.idempotency@[i]).user_id
                == (#[trigger] self.idempotency@[j]).user_id && self.idempotency@[i].key@
                == self.idempotency@[j].key@)
        &&& forall|i: int|
            0 <= i < self.idempotency@.len() ==> valid_idempotency_key(
                (#[trigger] self.idempotency@[i]).key@,
            )
    }

    /// An empty, well-formed database.
    pub fn new() -> (db: Database)
        ensures
            db.wf(),
            db.subscriptions@.len() == 0,
            db.tokens@.len() == 0,
            db.issues@.len() == 0,
            db.tasks@.len() == 0,
            db.idempotency@.len() == 0,
            db.next_subscriber_id == 0,
            db.next_issue_id == 0,
    {
        Database {
            subscriptions: Vec::new(),
            tokens: Vec::new(),
            issues: Vec::new(),
            tasks: Vec::new(),
            idempotency: Vec::new(),
            next_subscriber_id: 0,
            next_issue_id: 0,
        }
    }
}

/// Writes staged on top of a database snapshot. Nothing in a transaction is
/// visible to anyone until `commit` applies the whole of it at once; a
/// transaction that is simply dropped changes nothing (the rollback).
pub struct Transaction {
    /// The idempotency reservation this transaction will complete, if any.
    pub reservation: Option<(u64, IdempotencyKey)>,
    pub new_subscriptions: Vec<Subscription>,
    pub new_tokens: Vec<TokenRow>,
    pub new_issue: Option<NewsletterIssue>,
    pub new_tasks: Vec<DeliveryTask>,
    /// The response that completes the reservation at commit.
    pub response: Option<HttpResponse>,
}

impl Transaction {
    /// True when nothing has been staged yet.
    pub open spec fn is_empty(self) -> bool {
        &&& self.reservation is None
        &&& self.new_subscriptions@.len() == 0
        &&& self.new_tokens@.len() == 0
        &&& self.new_issue is None
        &&& self.new_tasks@.len() == 0
        &&& self.response is None
    }

    /// Opens a transaction with nothing staged.
    pub fn begin() -> (txn: Transaction)
        ensures
            txn.is_empty(),
    {
        Transaction {
            reservation: None,
            new_subscriptions: Vec::new(),
            new_tokens: Vec::new(),
            new_issue: None,
            new_tasks: Vec::new(),
            response: None,
        }
    }
}

/// When the staged writes can be applied to the given database without
/// violating its integrity: fresh sequential subscriber ids, emails not yet
/// taken, token values and owners not yet taken, the staged issue carrying
/// the next issue id, every staged task belonging to the staged issue with
/// no email repeated, and the reservation to complete actually standing in
/// the started state. A response is staged exactly when a reservation is.
pub open spec fn can_commit(db: Database, txn: Transaction) -> bool {
    &&& db.next_subscriber_id + txn.new_subscriptions@.len() <= u64::MAX
    &&& forall|i: int|
        0 <= i < txn.new_subscriptions@.len() ==> (#[trigger] txn.new_subscriptions@[i]).id
            == db.next_subscriber_id + i
    &&& forall|i: int|
        0 <= i < txn.new_subscriptions@.len() ==> !has_email(
            db.subscriptions@,
            (#[trigger] txn.new_subscriptions@[i]).email@,
        )
    &&& forall|i: int, j: int|
        0 <= i < j < txn.new_subscriptions@.len() ==> (#[trigger] txn.new_subscriptions@[i]).email@
            != (#[trigger] txn.new_subscriptions@[j]).email@
    &&& forall|i: int|
        0 <= i < txn.new_tokens@.len() ==> !has_token_value(
            db.tokens@,
            (#[trigger] txn.new_tokens@[i]).token@,
        )
    &&& forall|i: int|
        0 <= i < txn.new_tokens@.len() ==> !has_token_for(
            db.tokens@,
            (#[trigger] txn.new_tokens@[i]).subscriber_id,
        )
    &&& forall|i: int, j: int|
        0 <= i < j < txn.new_tokens@.len() ==> {
            &&& (#[trigger] txn.new_tokens@[i]).token@ != (#[trigger] txn.new_tokens@[j]).token@
            &&& txn.new_tokens@[i].subscriber_id != txn.new_tokens@[j].subscriber_id
        }
    &&& forall|i: int|
        0 <= i < txn.new_tokens@.len() ==> valid_subscription_token(
            (#[trigger] txn.new_tokens@[i]).token@,
        )
    &&& forall|i: int|
        0 <= i < txn.new_tokens@.len() ==> (#[trigger] txn.new_tokens@[i]).subscriber_id
            < db.next_subscriber_id + txn.new_subscriptions@.len()
    &&& txn.new_issue is Some ==> db.next_issue_id < u64::MAX
    &&& txn.new_issue matches Some(iss) ==> iss.id == db.next_issue_id
    &&& txn.new_tasks@.len() > 0 ==> txn.new_issue is Some
    &&& forall|i: int|
        0 <= i < txn.new_tasks@.len() ==> (#[trigger] txn.new_tasks@[i]).issue_id
            == db.next_issue_id
    &&& forall|i: int, j: int|
        0 <= i < j < txn.new_tasks@.len() ==> (#[trigger] txn.new_tasks@[i]).email@
            != (#[trigger] txn.new_tasks@[j]).email@
    &&& (txn.reservation is Some <==> txn.response is Some)
    &&& txn.reservation matches Some((u, k)) ==> {
        &&& has_record(db.idempotency@, u, k@)
        &&& record_state(db.idempotency@, u, k@) is Started
    }
}

/// What commit does: every staged row appended in order, the id counters
/// advanced, and — when a reservation was staged — its record completed with
/// the staged response, everything else untouched.
pub open spec fn commit_post(db0: Database, db1: Database, txn: Transaction) -> bool {
    &&& db1.subscriptions@ == db0.subscriptions@ + txn.new_subscriptions@
    &&& db1.tokens@ == db0.tokens@ + txn.new_tokens@
    &&& db1.issues@ == match txn.new_issue {
        Some(iss) => db0.issues@.push(iss),
        None => db0.issues@,
    }
    &&& db1.tasks@ == db0.tasks@ + txn.new_tasks@
    &&& db1.next_subscriber_id == db0.next_subscriber_id + txn.new_subscriptions@.len()
    &&& db1.next_issue_id == db0.next_issue_id + match txn.new_issue {
        Some(_) => 1int,
        None => 0int,
    }
    &&& match (txn.reservation, txn.response) {
        (Some((u, k)), Some(resp)) => {
            let idx = record_index(db0.idempotency@, u, k@);
            let rec = db0.idempotency@[idx];
            db1.idempotency@ == db0.idempotency@.update(
                idx,
                IdempotencyRecord {
                    user_id: rec.user_id,
                    key: rec.key,
                    state: RecordState::Completed(resp),
                },
            )
        },
        _ => db1.idempotency@ == db0.idempotency@,
    }
}

/// Applying a commit to a well-formed database yields a well-formed database.
pub proof fn lemma_commit_preserves_wf(db0: Database, db1: Database, txn: Transaction)
    requires
        db0.wf(),
        can_commit(db0, txn),
        commit_post(db0, db1, txn),
    ensures
        db1.wf(),
{
    assert forall|i: int, j: int| 0 <= i < j < db1.subscriptions@.len() implies {
        &&& (#[trigger] db1.subscriptions@[i]).id != (#[trigger] db1.subscriptions@[j]).id
        &&& db1.subscriptions@[i].email@ != db1.subscriptions@[j].email@
    } by {
        let n = db0.subscriptions@.len() as int;
        if i < n && j >= n {
            assert(!has_email(db0.subscriptions@, txn.new_subscriptions@[j - n].email@));
            assert(db0.subscriptions@[i].email@ != txn.new_subscriptions@[j - n].email@);
        }
    }
    assert forall|i: int, j: int| 0 <= i < j < db1.tokens@.len() implies {
        &&& (#[trigger] db1.tokens@[i]).token@ != (#[trigger] db1.tokens@[j]).token@
        &&& db1.tokens@[i].subscriber_id != db1.tokens@[j].subscriber_id
    } by {
        let n = db0.tokens@.len() as int;
        if i < n && j >= n {
            assert(!has_token_value(db0.tokens@, txn.new_tokens@[j - n].token@));
            assert(!has_token_for(db0.tokens@, txn.new_tokens@[j - n].subscriber_id));
            assert(db0.tokens@[i].token@ != txn.new_tokens@[j - n].token@);
            assert(db0.tokens@[i].subscriber_id != txn.new_tokens@[j - n].subscriber_id);
        }
    }
    assert forall|i: int| 0 <= i < db1.tokens@.len() implies (#[trigger] db1.tokens@[i]).subscriber_id
        < db1.next_subscriber_id by {
        let n = db0.tokens@.len() as int;
        if i < n {
            assert(db1.tokens@[i] == db0.tokens@[i]);
        } else {
            assert(db1.tokens@[i] == txn.new_tokens@[i - n]);
        }
    }
    assert forall|i: int, j: int| 0 <= i < j < db1.tasks@.len() implies !((
    #[trigger] db1.tasks@[i]).issue_id == (#[trigger] db1.tasks@[j]).issue_id
        && db1.tasks@[i].email@ == db1.tasks@[j].email@) by {
        let n = db0.tasks@.len() as int;
        if i < n && j >= n {
            assert(db0.tasks@[i].issue_id < db0.next_issue_id);
            assert(txn.new_tasks@[j - n].issue_id == db0.next_issue_id);
        }
    }
    match (txn.reservation, txn.response) {
        (Some((u, k)), Some(resp)) => {
            let idx = record_index(db0.idempotency@, u, k@);
            assert(0 <= idx < db0.idempotency@.len() && record_matches(
                db0.idempotency@[idx],
                u,
                k@,
            ));
            assert forall|i: int, j: int| 0 <= i < j < db1.idempotency@.len() implies !((
            #[trigger] db1.idempotency@[i]).user_id == (#[trigger] db1.idempotency@[j]).user_id
                && db1.idempotency@[i].key@ == db1.idempotency@[j].key@) by {
                assert(db1.idempotency@[i].user_id == db0.idempotency@[i].user_id
                    && db1.idempotency@[i].key@ == db0.idempotency@[i].key@);
                assert(db1.idempotency@[j].user_id == db0.idempotency@[j].user_id
                    && db1.idempotency@[j].key@ == db0.idempotency@[j].key@);
            }
            assert forall|i: int| 0 <= i < db1.idempotency@.len() implies valid_idempotency_key(
                (#[trigger] db1.idempotency@[i]).key@,
            ) by {
                assert(db1.idempotency@[i].key@ == db0.idempotency@[i].key@);
            }
        },
        _ => {},
    }
}

/// Finds the idempotency record for (user, key), scanning in storage order.
pub(crate) fn find_record_index(
    rows: &Vec<IdempotencyRecord>,
    user_id: u64,
    key: &String,
) -> (r: Option<usize>)
    ensures
        match r {
            Some(i) => i < rows@.len() && record_matches(rows@[i as int], user_id, key@),
            None => !has_record(rows@, user_id, key@),
        },
{
    let n = rows.len();
    for i in 0..n
        invariant
            n == rows@.len(),
            forall|j: int| 0 <= j < i ==> !record_matches(rows@[j], user_id, key@),
    {
        if rows[i].user_id == user_id && rows[i].key.eq(key) {
            return Some(i);
        }
    }
    None
}

/// Applies every write staged in the transaction to the database at once:
/// the atomic point at which "the issue exists", "its tasks exist" and "the
/// response is replayable" become simultaneously visible.
pub fn commit(db: &mut Database, txn: Transaction)
    requires
        old(db).wf(),
        can_commit(*old(db), txn),
    ensures
        final(db).wf(),
        commit_post(*old(db), *final(db), txn),
{
    let ghost db0 = *db;
    let Transaction {
        reservation,
        mut new_subscriptions,
        mut new_tokens,
        new_issue,
        mut new_tasks,
        response,
    } = txn;
    db.next_subscriber_id = db.next_subscriber_id + new_subscriptions.len() as u64;
    db.subscriptions.append(&mut new_subscriptions);
    db.tokens.append(&mut new_tokens);
    match new_issue {
        Some(iss) => {
            db.issues.push(iss);
            db.next_issue_id = db.next_issue_id + 1;
        },
        None => {},
    }
    db.tasks.append(&mut new_tasks);
    match (reservation, response) {
        (Some((user_id, key)), Some(resp)) => {
            let found = find_record_index(&db.idempotency, user_id, key.as_string());
            match found {
                Some(idx) => {
                    proof {
                        let spec_idx = record_index(db0.idempotency@, user_id, key@);
                        assert(0 <= spec_idx < db0.idempotency@.len() && record_matches(
                            db0.idempotency@[spec_idx],
                            user_id,
                            key@,
                        ));
                        assert(idx == spec_idx);
                    }
                    db.idempotency[idx].state = RecordState::Completed(resp);
                },
                None => {
                    proof {
                        assert(false);
                    }
                },
            }
        },
        _ => {},
    }
    proof {
        lemma_commit_preserves_wf(db0, *db, txn);
    }
}

} // verus!
